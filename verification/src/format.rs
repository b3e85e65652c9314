//! OS-agnostic naming, quoting, escaping and listing-parsing helpers for the scheduler and
//! notifier backends.
use vstd::prelude::*;
use crate::text::{chars_of, slice_chars, string_from_chars};

verus! {

broadcast use vstd::string::group_string_axioms;

/// The XML 1.0 escape of one character.
pub open spec fn xml_escape_char(c: char) -> Seq<char> {
    if c == '&' {
        seq!['&', 'a', 'm', 'p', ';']
    } else if c == '<' {
        seq!['&', 'l', 't', ';']
    } else if c == '>' {
        seq!['&', 'g', 't', ';']
    } else if c == '"' {
        seq!['&', 'q', 'u', 'o', 't', ';']
    } else if c == '\'' {
        seq!['&', 'a', 'p', 'o', 's', ';']
    } else {
        seq![c]
    }
}

/// `s` with every character replaced by its XML escape.
pub open spec fn xml_escaped(s: Seq<char>) -> Seq<char> {
    s.flat_map(|c: char| xml_escape_char(c))
}

/// XML 1.0 entity escaping of `&`, `<`, `>`, `"` and `'`.
pub fn xml_escape(value: &str) -> (res: String)
    ensures
        res@ == xml_escaped(value@),
{
    let v = chars_of(value);
    let out = xml_escape_chars(&v);
    string_from_chars(&out)
}

/// The characters of `v` with every character replaced by its XML escape.
pub fn xml_escape_chars(v: &Vec<char>) -> (res: Vec<char>)
    ensures
        res@ == xml_escaped(v@),
{
    let mut out: Vec<char> = Vec::new();
    let mut i: usize = 0;
    while i < v.len()
        invariant
            i <= v.len(),
            out@ == xml_escaped(v@.take(i as int)),
        decreases v.len() - i,
    {
        let c = v[i];
        if c == '&' {
            out.push('&'); out.push('a'); out.push('m'); out.push('p'); out.push(';');
        } else if c == '<' {
            out.push('&'); out.push('l'); out.push('t'); out.push(';');
        } else if c == '>' {
            out.push('&'); out.push('g'); out.push('t'); out.push(';');
        } else if c == '"' {
            out.push('&'); out.push('q'); out.push('u'); out.push('o'); out.push('t'); out.push(';');
        } else if c == '\'' {
            out.push('&'); out.push('a'); out.push('p'); out.push('o'); out.push('s'); out.push(';');
        } else {
            out.push(c);
        }
        proof {
            v@.lemma_flat_map_take_append(|c: char| xml_escape_char(c), i as int);
        }
        i = i + 1;
    }
    assert(v@.take(v.len() as int) =~= v@);
    out
}

/// The AppleScript string-literal escape of one character.
pub open spec fn applescript_escape_char(c: char) -> Seq<char> {
    if c == '\\' {
        seq!['\\', '\\']
    } else if c == '"' {
        seq!['\\', '"']
    } else {
        seq![c]
    }
}

/// `value` as an AppleScript string literal: backslashes and quotes escaped, wrapped in quotes.
pub open spec fn applescript_literal(value: Seq<char>) -> Seq<char> {
    seq!['"'] + value.flat_map(|c: char| applescript_escape_char(c)) + seq!['"']
}

/// Quotes a string as an AppleScript string literal (used by the macOS notifier).
pub fn applescript_string(value: &str) -> (res: String)
    ensures
        res@ == applescript_literal(value@),
{
    let v = chars_of(value);
    let mut out: Vec<char> = Vec::new();
    out.push('"');
    let mut i: usize = 0;
    while i < v.len()
        invariant
            i <= v.len(),
            out@ == seq!['"'] + v@.take(i as int).flat_map(|c: char| applescript_escape_char(c)),
        decreases v.len() - i,
    {
        let c = v[i];
        if c == '\\' {
            out.push('\\');
            out.push('\\');
        } else if c == '"' {
            out.push('\\');
            out.push('"');
        } else {
            out.push(c);
        }
        proof {
            v@.lemma_flat_map_take_append(|c: char| applescript_escape_char(c), i as int);
        }
        i = i + 1;
    }
    assert(v@.take(v.len() as int) =~= v@);
    out.push('"');
    string_from_chars(&out)
}

/// The VBScript string-literal escape of one character (quotes are doubled).
pub open spec fn vbscript_escape_char(c: char) -> Seq<char> {
    if c == '"' {
        seq!['"', '"']
    } else {
        seq![c]
    }
}

/// `value` as a VBScript string literal.
pub open spec fn vbscript_literal(value: Seq<char>) -> Seq<char> {
    seq!['"'] + value.flat_map(|c: char| vbscript_escape_char(c)) + seq!['"']
}

/// Quotes a string as a VBScript string literal (used by the Windows notifier).
pub fn vbscript_string(value: &str) -> (res: String)
    ensures
        res@ == vbscript_literal(value@),
{
    let v = chars_of(value);
    let out = vbscript_chars(&v);
    string_from_chars(&out)
}

/// The characters of the VBScript string literal for `v`.
pub fn vbscript_chars(v: &Vec<char>) -> (res: Vec<char>)
    ensures
        res@ == vbscript_literal(v@),
{
    let mut out: Vec<char> = Vec::new();
    out.push('"');
    let mut i: usize = 0;
    while i < v.len()
        invariant
            i <= v.len(),
            out@ == seq!['"'] + v@.take(i as int).flat_map(|c: char| vbscript_escape_char(c)),
        decreases v.len() - i,
    {
        let c = v[i];
        if c == '"' {
            out.push('"');
            out.push('"');
        } else {
            out.push(c);
        }
        proof {
            v@.lemma_flat_map_take_append(|c: char| vbscript_escape_char(c), i as int);
        }
        i = i + 1;
    }
    assert(v@.take(v.len() as int) =~= v@);
    out.push('"');
    out
}

/// ASCII whitespace as `u8::is_ascii_whitespace` defines it: space, tab, line feed, form feed
/// and carriage return.
pub open spec fn is_ascii_white_space(c: char) -> bool {
    c == ' ' || c == '\t' || c == '\n' || c == '\x0C' || c == '\r'
}

/// Whether a Windows command-line argument must be wrapped in quotes: it is empty, or holds
/// ASCII whitespace or a double quote. (A non-ASCII character never encodes to such a byte.)
pub open spec fn windows_arg_needs_quotes(arg: Seq<char>) -> bool {
    arg.len() == 0 || exists|i: int|
        0 <= i < arg.len() && (is_ascii_white_space(#[trigger] arg[i]) || arg[i] == '"')
}

/// The escape of one character inside a quoted Windows argument.
pub open spec fn windows_escape_char(c: char) -> Seq<char> {
    if c == '"' {
        seq!['\\', '"']
    } else {
        seq![c]
    }
}

/// The quoted form of a Windows command-line argument.
pub open spec fn windows_quoted(arg: Seq<char>) -> Seq<char> {
    if windows_arg_needs_quotes(arg) {
        seq!['"'] + arg.flat_map(|c: char| windows_escape_char(c)) + seq!['"']
    } else {
        arg
    }
}

/// Quotes a single Windows command-line argument (double-quote wrapping + `"` escaping).
pub fn quote_windows_arg(arg: &str) -> (res: String)
    ensures
        res@ == windows_quoted(arg@),
{
    let v = chars_of(arg);
    let out = quote_windows_chars(&v);
    string_from_chars(&out)
}

/// The characters of the quoted form of the Windows argument `v`.
pub fn quote_windows_chars(v: &Vec<char>) -> (res: Vec<char>)
    ensures
        res@ == windows_quoted(v@),
{
    let mut needs = v.len() == 0;
    let mut j: usize = 0;
    while j < v.len()
        invariant
            j <= v.len(),
            needs == (v@.len() == 0 || exists|i: int|
                0 <= i < j && (is_ascii_white_space(#[trigger] v@[i]) || v@[i] == '"')),
        decreases v.len() - j,
    {
        let c = v[j];
        if c == ' ' || c == '\t' || c == '\n' || c == '\x0C' || c == '\r' || c == '"' {
            needs = true;
        }
        j = j + 1;
    }
    if !needs {
        return slice_chars(v, 0, v.len());
    }
    let mut out: Vec<char> = Vec::new();
    out.push('"');
    let mut i: usize = 0;
    while i < v.len()
        invariant
            i <= v.len(),
            out@ == seq!['"'] + v@.take(i as int).flat_map(|c: char| windows_escape_char(c)),
        decreases v.len() - i,
    {
        let c = v[i];
        if c == '"' {
            out.push('\\');
            out.push('"');
        } else {
            out.push(c);
        }
        proof {
            v@.lemma_flat_map_take_append(|c: char| windows_escape_char(c), i as int);
        }
        i = i + 1;
    }
    assert(v@.take(v.len() as int) =~= v@);
    out.push('"');
    out
}

/// The prefix of every systemd unit this tool owns: `ccplan-`.
pub open spec fn systemd_unit_prefix() -> Seq<char> {
    seq!['c', 'c', 'p', 'l', 'a', 'n', '-']
}

/// systemd transient unit name for a backend id (`ccplan-<id>`).
pub fn systemd_unit_name(backend_id: &str) -> (res: String)
    ensures
        res@ == systemd_unit_prefix() + backend_id@,
{
    proof {
        reveal_strlit("ccplan-");
    }
    let mut res = String::from_str("ccplan-");
    res.append(backend_id);
    res
}

/// The Task Scheduler folder prefix of every task this tool owns: `\ccplan\`.
pub open spec fn windows_task_prefix() -> Seq<char> {
    seq!['\\', 'c', 'c', 'p', 'l', 'a', 'n', '\\']
}

/// Windows Task Scheduler task path for a backend id (`\ccplan\<id>`).
pub fn windows_task_name(backend_id: &str) -> (res: String)
    ensures
        res@ == windows_task_prefix() + backend_id@,
{
    proof {
        reveal_strlit("\\ccplan\\");
    }
    let mut res = String::from_str("\\ccplan\\");
    res.append(backend_id);
    res
}

/// The launchd label prefix of every agent this tool owns: `io.ccplan.`.
pub open spec fn launchd_label_prefix() -> Seq<char> {
    seq!['i', 'o', '.', 'c', 'c', 'p', 'l', 'a', 'n', '.']
}

/// launchd `LaunchAgent` label for a backend id (`io.ccplan.<id>`).
pub fn launchd_label(backend_id: &str) -> (res: String)
    ensures
        res@ == launchd_label_prefix() + backend_id@,
{
    proof {
        reveal_strlit("io.ccplan.");
    }
    let mut res = String::from_str("io.ccplan.");
    res.append(backend_id);
    res
}

} // verus!
