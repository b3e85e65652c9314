//! Properties that relate the formatters and parsers to each other: every quoting and escaping
//! can be undone, and the listing parsers recover the ids the name builders were given.
use vstd::prelude::*;
use crate::format::{
    is_ascii_white_space,
    applescript_escape_char, applescript_literal, systemd_unit_prefix, vbscript_escape_char,
    vbscript_literal, windows_escape_char, windows_quoted, windows_task_prefix, xml_escape_char,
    xml_escaped,
};
use crate::listing::{
    is_task_line, is_timer_unit, lemma_line_len_at, lemma_line_len_bound, lemma_word_len_at,
    lemma_word_len_bound, line_len, lines, task_ids, task_ids_of, task_line_id,
    task_name_key, task_name_value, timer_ids, timer_ids_of, timer_suffix,
    timer_unit_id, word_len, words,
};
use crate::notify::windows::{msgbox_script_text, MSGBOX_INFORMATION};
use crate::output::CommandOutput;
use crate::schtasks::{
    joined_with_spaces, quoted_args, reports_missing_task, task_document, task_xml, SchedulerError,
    TASK_EXPIRY_SECONDS,
};
use crate::time::{
    calendar_interval, instant_parts_valid, jiff_civil_at_offset, jiff_strftime_at_offset,
    offset_valid, total_nanos, windows_boundary, windows_boundary_format, zone_offset,
    CalendarInterval, Instant,
};
use crate::text::{contains_seq, decimal, digit_char, has_prefix, is_white_space, trim, trim_end, trim_start};

verus! {

/// `flat_map` unfolds at the front.
pub proof fn lemma_flat_map_front(s: Seq<char>, f: spec_fn(char) -> Seq<char>)
    requires
        s.len() > 0,
    ensures
        s.flat_map(f) == f(s[0]) + s.drop_first().flat_map(f),
{
    assert(s.map_values(f).drop_first() =~= s.drop_first().map_values(f));
}

/// The XML entity decoding of `s` for the five entities `xml_escape` produces.
pub open spec fn xml_unescaped(s: Seq<char>) -> Seq<char>
    decreases s.len(),
{
    if s.len() == 0 {
        seq![]
    } else if has_prefix(s, seq!['&', 'a', 'm', 'p', ';']) {
        seq!['&'] + xml_unescaped(s.skip(5))
    } else if has_prefix(s, seq!['&', 'l', 't', ';']) {
        seq!['<'] + xml_unescaped(s.skip(4))
    } else if has_prefix(s, seq!['&', 'g', 't', ';']) {
        seq!['>'] + xml_unescaped(s.skip(4))
    } else if has_prefix(s, seq!['&', 'q', 'u', 'o', 't', ';']) {
        seq!['"'] + xml_unescaped(s.skip(6))
    } else if has_prefix(s, seq!['&', 'a', 'p', 'o', 's', ';']) {
        seq!['\''] + xml_unescaped(s.skip(6))
    } else {
        seq![s[0]] + xml_unescaped(s.drop_first())
    }
}

proof fn lemma_xml_unescape_step(c: char, rest: Seq<char>)
    ensures
        xml_unescaped(xml_escape_char(c) + rest) == seq![c] + xml_unescaped(rest),
{
    let e = xml_escape_char(c);
    let s = e + rest;
    if c == '&' {
        assert(s.take(5) =~= seq!['&', 'a', 'm', 'p', ';']);
        assert(s.skip(5) =~= rest);
    } else if c == '<' {
        if s.len() >= 5 {
            assert(s.take(5)[1] != 'a');
        }
        assert(s.take(4) =~= seq!['&', 'l', 't', ';']);
        assert(s.skip(4) =~= rest);
    } else if c == '>' {
        if s.len() >= 5 {
            assert(s.take(5)[1] != 'a');
        }
        assert(s.take(4)[1] != 'l');
        assert(s.take(4) =~= seq!['&', 'g', 't', ';']);
        assert(s.skip(4) =~= rest);
    } else if c == '"' {
        assert(s.take(5)[1] != 'a');
        assert(s.take(4)[1] != 'l');
        assert(s.take(4)[1] != 'g');
        assert(s.take(6) =~= seq!['&', 'q', 'u', 'o', 't', ';']);
        assert(s.skip(6) =~= rest);
    } else if c == '\'' {
        assert(s.take(5)[2] != 'm');
        assert(s.take(4)[1] != 'l');
        assert(s.take(4)[1] != 'g');
        assert(s.take(6)[1] != 'q');
        assert(s.take(6) =~= seq!['&', 'a', 'p', 'o', 's', ';']);
        assert(s.skip(6) =~= rest);
    } else {
        assert(s[0] == c);
        if s.len() >= 4 {
            assert(s.take(4)[0] != '&');
        }
        if s.len() >= 5 {
            assert(s.take(5)[0] != '&');
        }
        if s.len() >= 6 {
            assert(s.take(6)[0] != '&');
        }
        assert(s.drop_first() =~= rest);
    }
}

/// XML escaping can be undone: decoding the five entities gives back the text that was escaped.
pub proof fn lemma_xml_escape_round_trip(s: Seq<char>)
    ensures
        xml_unescaped(xml_escaped(s)) == s,
    decreases s.len(),
{
    if s.len() == 0 {
        assert(xml_escaped(s) =~= Seq::<char>::empty());
    } else {
        lemma_flat_map_front(s, |c: char| xml_escape_char(c));
        lemma_xml_unescape_step(s[0], xml_escaped(s.drop_first()));
        lemma_xml_escape_round_trip(s.drop_first());
        assert(seq![s[0]] + s.drop_first() =~= s);
    }
}

/// XML-escaped text holds no `<`, `>`, `"` or `'`.
pub proof fn lemma_xml_escaped_has_no_markup(s: Seq<char>)
    ensures
        forall|i: int|
            0 <= i < xml_escaped(s).len() ==> #[trigger] xml_escaped(s)[i] != '<' && xml_escaped(
                s,
            )[i] != '>' && xml_escaped(s)[i] != '"' && xml_escaped(s)[i] != '\'',
    decreases s.len(),
{
    if s.len() == 0 {
        assert(xml_escaped(s) =~= Seq::<char>::empty());
    } else {
        lemma_flat_map_front(s, |c: char| xml_escape_char(c));
        lemma_xml_escaped_has_no_markup(s.drop_first());
        let e = xml_escape_char(s[0]);
        let r = xml_escaped(s.drop_first());
        assert forall|i: int| 0 <= i < (e + r).len() implies #[trigger] (e + r)[i] != '<' && (e
            + r)[i] != '>' && (e + r)[i] != '"' && (e + r)[i] != '\'' by {
            if i >= e.len() {
                assert((e + r)[i] == r[i - e.len()]);
            }
        }
    }
}

/// Undoes the doubling of quotes inside a VBScript literal.
pub open spec fn vbscript_unescaped(s: Seq<char>) -> Seq<char>
    decreases s.len(),
{
    if s.len() == 0 {
        seq![]
    } else if s.len() >= 2 && s[0] == '"' && s[1] == '"' {
        seq!['"'] + vbscript_unescaped(s.skip(2))
    } else {
        seq![s[0]] + vbscript_unescaped(s.drop_first())
    }
}

/// The string a VBScript string literal denotes.
pub open spec fn vbscript_value(literal: Seq<char>) -> Seq<char> {
    vbscript_unescaped(literal.subrange(1, literal.len() - 1))
}

proof fn lemma_vbscript_inner_round_trip(s: Seq<char>)
    ensures
        vbscript_unescaped(s.flat_map(|c: char| vbscript_escape_char(c))) == s,
    decreases s.len(),
{
    let f = |c: char| vbscript_escape_char(c);
    if s.len() == 0 {
        assert(s.flat_map(f) =~= Seq::<char>::empty());
    } else {
        lemma_flat_map_front(s, f);
        lemma_vbscript_inner_round_trip(s.drop_first());
        let rest = s.drop_first().flat_map(f);
        let t = f(s[0]) + rest;
        if s[0] == '"' {
            assert(t.skip(2) =~= rest);
        } else {
            assert(t.drop_first() =~= rest);
        }
        assert(seq![s[0]] + s.drop_first() =~= s);
    }
}

/// A VBScript string literal denotes the string it was made from.
pub proof fn lemma_vbscript_round_trip(s: Seq<char>)
    ensures
        vbscript_value(vbscript_literal(s)) == s,
{
    let inner = s.flat_map(|c: char| vbscript_escape_char(c));
    assert(vbscript_literal(s).subrange(1, vbscript_literal(s).len() - 1) =~= inner);
    lemma_vbscript_inner_round_trip(s);
}

/// Undoes the backslash escapes inside an AppleScript literal.
pub open spec fn applescript_unescaped(s: Seq<char>) -> Seq<char>
    decreases s.len(),
{
    if s.len() == 0 {
        seq![]
    } else if s.len() >= 2 && s[0] == '\\' {
        seq![s[1]] + applescript_unescaped(s.skip(2))
    } else {
        seq![s[0]] + applescript_unescaped(s.drop_first())
    }
}

/// The string an AppleScript string literal denotes.
pub open spec fn applescript_value(literal: Seq<char>) -> Seq<char> {
    applescript_unescaped(literal.subrange(1, literal.len() - 1))
}

proof fn lemma_applescript_inner_round_trip(s: Seq<char>)
    ensures
        applescript_unescaped(s.flat_map(|c: char| applescript_escape_char(c))) == s,
    decreases s.len(),
{
    let f = |c: char| applescript_escape_char(c);
    if s.len() == 0 {
        assert(s.flat_map(f) =~= Seq::<char>::empty());
    } else {
        lemma_flat_map_front(s, f);
        lemma_applescript_inner_round_trip(s.drop_first());
        let rest = s.drop_first().flat_map(f);
        let t = f(s[0]) + rest;
        if s[0] == '\\' || s[0] == '"' {
            assert(t.skip(2) =~= rest);
        } else {
            assert(t.drop_first() =~= rest);
        }
        assert(seq![s[0]] + s.drop_first() =~= s);
    }
}

/// An AppleScript string literal denotes the string it was made from.
pub proof fn lemma_applescript_round_trip(s: Seq<char>)
    ensures
        applescript_value(applescript_literal(s)) == s,
{
    let inner = s.flat_map(|c: char| applescript_escape_char(c));
    assert(applescript_literal(s).subrange(1, applescript_literal(s).len() - 1) =~= inner);
    lemma_applescript_inner_round_trip(s);
}

/// Reads `\"` as `"` and every other character as itself.
pub open spec fn windows_unescaped(s: Seq<char>) -> Seq<char>
    decreases s.len(),
{
    if s.len() == 0 {
        seq![]
    } else if s.len() >= 2 && s[0] == '\\' && s[1] == '"' {
        seq!['"'] + windows_unescaped(s.skip(2))
    } else {
        seq![s[0]] + windows_unescaped(s.drop_first())
    }
}

/// Strips the surrounding quotes of a quoted argument and reads `\"` as `"`; leaves any other
/// text as it is.
pub open spec fn windows_unquoted(q: Seq<char>) -> Seq<char> {
    if q.len() >= 2 && q[0] == '"' && q.last() == '"' {
        windows_unescaped(q.subrange(1, q.len() - 1))
    } else {
        q
    }
}

proof fn lemma_windows_inner_round_trip(s: Seq<char>)
    ensures
        windows_unescaped(s.flat_map(|c: char| windows_escape_char(c))) == s,
    decreases s.len(),
{
    let f = |c: char| windows_escape_char(c);
    if s.len() == 0 {
        assert(s.flat_map(f) =~= Seq::<char>::empty());
    } else {
        lemma_flat_map_front(s, f);
        lemma_windows_inner_round_trip(s.drop_first());
        let rest = s.drop_first().flat_map(f);
        let t = f(s[0]) + rest;
        if s[0] == '"' {
            assert(t.skip(2) =~= rest);
        } else {
            assert(t.drop_first() =~= rest);
        }
        assert(seq![s[0]] + s.drop_first() =~= s);
    }
}

/// Quoting a Windows argument loses nothing: reading the quoted form back (surrounding quotes
/// stripped, `\"` read as `"`) gives the argument, so distinct arguments never quote alike.
pub proof fn lemma_windows_quote_round_trip(arg: Seq<char>)
    ensures
        windows_unquoted(windows_quoted(arg)) == arg,
{
    let q = windows_quoted(arg);
    if crate::format::windows_arg_needs_quotes(arg) {
        let inner = arg.flat_map(|c: char| windows_escape_char(c));
        assert(q.subrange(1, q.len() - 1) =~= inner);
        lemma_windows_inner_round_trip(arg);
    } else {
        if arg.len() >= 2 && arg[0] == '"' {
            assert(arg[0] == '"');
        }
    }
}

/// A word never runs past a whitespace character: when `a` holds one, the first word of
/// `a + b` is the first word of `a`.
proof fn lemma_word_len_concat(a: Seq<char>, b: Seq<char>)
    requires
        exists|i: int| 0 <= i < a.len() && is_white_space(#[trigger] a[i]),
    ensures
        word_len(a + b) == word_len(a),
    decreases a.len(),
{
    if !is_white_space(a[0]) {
        let i = choose|i: int| 0 <= i < a.len() && is_white_space(#[trigger] a[i]);
        assert(is_white_space(a.drop_first()[i - 1]));
        assert((a + b).drop_first() =~= a.drop_first() + b);
        lemma_word_len_concat(a.drop_first(), b);
    }
}

/// The words of `a + b` are those of `a` then those of `b` when `a` is empty or ends in
/// whitespace.
pub proof fn lemma_words_concat(a: Seq<char>, b: Seq<char>)
    requires
        a.len() == 0 || is_white_space(a.last()),
    ensures
        words(a + b) == words(a) + words(b),
    decreases a.len(),
{
    if a.len() == 0 {
        assert(a + b =~= b);
        assert(words(a) =~= Seq::<Seq<char>>::empty());
        assert(words(a) + words(b) =~= words(b));
    } else if is_white_space(a[0]) {
        assert((a + b).drop_first() =~= a.drop_first() + b);
        if a.len() > 1 {
            assert(a.drop_first().last() == a.last());
        }
        lemma_words_concat(a.drop_first(), b);
    } else {
        assert(is_white_space(a[a.len() - 1]));
        lemma_word_len_concat(a, b);
        lemma_word_len_bound(a);
        let n = word_len(a) as int;
        assert(n < a.len()) by {
            if n == a.len() {
                lemma_word_len_positions(a);
                assert(!is_white_space(a[a.len() - 1]));
            }
        }
        assert((a + b).take(n) =~= a.take(n));
        assert((a + b).skip(n) =~= a.skip(n) + b);
        assert(a.skip(n).last() == a.last());
        lemma_words_concat(a.skip(n), b);
    }
}

/// Every character of the first word is not whitespace.
proof fn lemma_word_len_positions(s: Seq<char>)
    ensures
        forall|m: int| 0 <= m < word_len(s) ==> !is_white_space(#[trigger] s[m]),
    decreases s.len(),
{
    lemma_word_len_bound(s);
    if s.len() > 0 && !is_white_space(s[0]) {
        lemma_word_len_positions(s.drop_first());
        assert forall|m: int| 0 <= m < word_len(s) implies !is_white_space(#[trigger] s[m]) by {
            if m > 0 {
                assert(s[m] == s.drop_first()[m - 1]);
            }
        }
    }
}

/// The timer ids of concatenated field lists are concatenated.
proof fn lemma_timer_ids_of_concat(x: Seq<Seq<char>>, y: Seq<Seq<char>>)
    ensures
        timer_ids_of(x + y) == timer_ids_of(x) + timer_ids_of(y),
    decreases x.len(),
{
    if x.len() == 0 {
        assert(x + y =~= y);
        assert(timer_ids_of(x) + timer_ids_of(y) =~= timer_ids_of(y));
    } else {
        assert((x + y).drop_first() =~= x.drop_first() + y);
        lemma_timer_ids_of_concat(x.drop_first(), y);
        assert((x + y)[0] == x[0]);
        if is_timer_unit(x[0]) {
            assert(seq![timer_unit_id(x[0])] + (timer_ids_of(x.drop_first()) + timer_ids_of(y))
                =~= seq![timer_unit_id(x[0])] + timer_ids_of(x.drop_first()) + timer_ids_of(y));
        }
    }
}

/// The timer unit that `systemd_unit_name` names for `id`: `ccplan-<id>.timer`.
pub open spec fn timer_unit(id: Seq<char>) -> Seq<char> {
    systemd_unit_prefix() + id + timer_suffix()
}

/// Listing recovers what naming produced: when the timer unit of `id` (an id without
/// whitespace) appears as a whitespace-separated field of a `list-timers` listing, `id` is
/// among the ids the listing yields.
pub proof fn lemma_listed_timer_unit_is_found(before: Seq<char>, id: Seq<char>, after: Seq<char>)
    requires
        forall|i: int| 0 <= i < id.len() ==> !is_white_space(#[trigger] id[i]),
        before.len() == 0 || is_white_space(before.last()),
        after.len() == 0 || is_white_space(after[0]),
    ensures
        timer_ids(before + timer_unit(id) + after).contains(id),
{
    let u = timer_unit(id);
    assert forall|m: int| 0 <= m < u.len() implies !is_white_space(#[trigger] u[m]) by {
        if 7 <= m < 7 + id.len() {
            assert(u[m] == id[m - 7]);
        }
    }
    lemma_word_len_at(u + after, u.len() as int);
    assert((u + after).take(u.len() as int) =~= u);
    assert((u + after).skip(u.len() as int) =~= after);
    assert(words(u + after) == seq![u] + words(after));
    assert(before + u + after =~= before + (u + after));
    lemma_words_concat(before, u + after);
    lemma_timer_ids_of_concat(words(before), seq![u] + words(after));
    assert(u.take(7) =~= systemd_unit_prefix());
    assert(u.skip(7).skip(u.skip(7).len() - 6) =~= timer_suffix());
    assert(timer_unit_id(u) =~= id);
    assert((seq![u] + words(after))[0] == u);
    assert((seq![u] + words(after)).drop_first() =~= words(after));
    let ids = timer_ids(before + timer_unit(id) + after);
    assert(ids[timer_ids_of(words(before)).len() as int] == id);
}

/// Every character of the first line is not a line feed, and a line feed ends it when the text
/// goes on.
proof fn lemma_line_len_positions(s: Seq<char>)
    ensures
        line_len(s) <= s.len(),
        forall|m: int| 0 <= m < line_len(s) ==> #[trigger] s[m] != '\n',
        line_len(s) < s.len() ==> s[line_len(s) as int] == '\n',
    decreases s.len(),
{
    lemma_line_len_bound(s);
    if s.len() > 0 && s[0] != '\n' {
        lemma_line_len_positions(s.drop_first());
        assert forall|m: int| 0 <= m < line_len(s) implies #[trigger] s[m] != '\n' by {
            if m > 0 {
                assert(s[m] == s.drop_first()[m - 1]);
            }
        }
    }
}

/// The lines of `p + q`, where `p` ends in a line feed, are those of `p` without it, then
/// those of `q`.
pub proof fn lemma_lines_concat(p: Seq<char>, q: Seq<char>)
    requires
        p.len() > 0,
        p.last() == '\n',
    ensures
        lines(p + q) == lines(p.drop_last()) + lines(q),
    decreases p.len(),
{
    lemma_line_len_positions(p);
    let n = line_len(p) as int;
    assert(n < p.len());
    assert forall|m: int| 0 <= m < n implies #[trigger] (p + q)[m] != '\n' by {
        assert((p + q)[m] == p[m]);
    }
    lemma_line_len_at(p + q, n);
    assert((p + q).take(n) =~= p.take(n));
    if n == p.len() - 1 {
        assert((p + q).skip(n + 1) =~= q);
        assert forall|m: int| 0 <= m < n implies #[trigger] p.drop_last()[m] != '\n' by {
            assert(p.drop_last()[m] == p[m]);
        }
        lemma_line_len_at(p.drop_last(), n);
        assert(p.drop_last() =~= p.take(n));
    } else {
        let r = p.skip(n + 1);
        assert((p + q).skip(n + 1) =~= r + q);
        assert(r.last() == p.last());
        lemma_lines_concat(r, q);
        assert forall|m: int| 0 <= m < n implies #[trigger] p.drop_last()[m] != '\n' by {
            assert(p.drop_last()[m] == p[m]);
        }
        assert(p.drop_last()[n] == '\n');
        lemma_line_len_at(p.drop_last(), n);
        assert(p.drop_last().take(n) =~= p.take(n));
        assert(p.drop_last().skip(n + 1) =~= r.drop_last());
    }
}

/// The task ids of concatenated line lists are concatenated.
proof fn lemma_task_ids_of_concat(x: Seq<Seq<char>>, y: Seq<Seq<char>>)
    ensures
        task_ids_of(x + y) == task_ids_of(x) + task_ids_of(y),
    decreases x.len(),
{
    if x.len() == 0 {
        assert(x + y =~= y);
        assert(task_ids_of(x) + task_ids_of(y) =~= task_ids_of(y));
    } else {
        assert((x + y).drop_first() =~= x.drop_first() + y);
        lemma_task_ids_of_concat(x.drop_first(), y);
        assert((x + y)[0] == x[0]);
        if is_task_line(x[0]) {
            assert(seq![task_line_id(x[0])] + (task_ids_of(x.drop_first()) + task_ids_of(y))
                =~= seq![task_line_id(x[0])] + task_ids_of(x.drop_first()) + task_ids_of(y));
        }
    }
}

/// The `TaskName:` line that `schtasks /Query /FO LIST` prints for the task that
/// `windows_task_name` names for `id`: `TaskName: \ccplan\<id>`.
pub open spec fn task_line(id: Seq<char>) -> Seq<char> {
    task_name_key() + seq![' '] + windows_task_prefix() + id
}

/// Listing recovers what naming produced: when the `TaskName:` line of the task named for `id`
/// (an id on one line, not ending in whitespace) is a line of a `schtasks` listing, `id` is
/// among the ids the listing yields.
pub proof fn lemma_listed_task_is_found(before: Seq<char>, id: Seq<char>, after: Seq<char>)
    requires
        forall|i: int| 0 <= i < id.len() ==> #[trigger] id[i] != '\n',
        id.len() == 0 || !is_white_space(id.last()),
        before.len() == 0 || before.last() == '\n',
        after.len() == 0 || after[0] == '\n',
    ensures
        task_ids(before + task_line(id) + after).contains(id),
{
    let line = task_line(id);
    assert(line.len() == 18 + id.len());
    assert forall|m: int| 0 <= m < line.len() implies #[trigger] line[m] != '\n' by {
        if 18 <= m {
            assert(line[m] == id[m - 18]);
        }
    }
    // The line is already trimmed.
    assert(!is_white_space(line.last())) by {
        if id.len() > 0 {
            assert(line.last() == id.last());
        }
    }
    assert(trim_start(line) == line);
    assert(trim_end(line) == line);
    assert(trim(line) == line);
    assert(has_prefix(line, task_name_key())) by {
        assert(line.take(9) =~= task_name_key());
    }
    let v = line.skip(9);
    let w = windows_task_prefix() + id;
    assert(v.drop_first() =~= w);
    assert(v[0] == ' ');
    assert(is_white_space(v[0]));
    assert(trim_start(v) == trim_start(v.drop_first()));
    assert(w[0] == '\\');
    assert(trim_start(w) == w);
    assert(!is_white_space(w.last())) by {
        if id.len() > 0 {
            assert(w.last() == id.last());
        }
    }
    assert(trim_end(w) == w);
    assert(task_name_value(line) == w);
    assert(w.take(8) =~= windows_task_prefix());
    assert(w.skip(8) =~= id);
    assert(is_task_line(line));
    assert(task_line_id(line) == id);
    // The line stands alone among the lines of the listing.
    let tail = line + after;
    lemma_line_len_at(tail, line.len() as int);
    assert(tail.take(line.len() as int) =~= line);
    let rest_lines: Seq<Seq<char>> = if after.len() == 0 {
        assert(tail =~= line);
        seq![]
    } else {
        assert(tail.skip(line.len() as int + 1) =~= after.drop_first());
        lines(after.drop_first())
    };
    assert(lines(tail) == seq![line] + rest_lines);
    let all = before + line + after;
    let all_lines: Seq<Seq<char>> = if before.len() == 0 {
        assert(all =~= tail);
        seq![line] + rest_lines
    } else {
        assert(all =~= before + tail);
        lemma_lines_concat(before, tail);
        lines(before.drop_last()) + (seq![line] + rest_lines)
    };
    assert(lines(all) == all_lines);
    let prefix_lines: Seq<Seq<char>> = if before.len() == 0 {
        seq![]
    } else {
        lines(before.drop_last())
    };
    assert(all_lines =~= prefix_lines + (seq![line] + rest_lines));
    lemma_task_ids_of_concat(prefix_lines, seq![line] + rest_lines);
    assert((seq![line] + rest_lines)[0] == line);
    assert((seq![line] + rest_lines).drop_first() =~= rest_lines);
    let ids = task_ids(all);
    assert(ids[task_ids_of(prefix_lines).len() as int] == id);
}

/// The number of backslashes at the start of `s`.
pub open spec fn backslash_run(s: Seq<char>) -> nat
    decreases s.len(),
{
    if s.len() > 0 && s[0] == '\\' {
        1 + backslash_run(s.drop_first())
    } else {
        0
    }
}

/// A backslash run is never longer than the text it starts.
pub proof fn lemma_backslash_run_bound(s: Seq<char>)
    ensures
        backslash_run(s) <= s.len(),
        s.len() > 0 && s[0] == '\\' ==> backslash_run(s) >= 1,
    decreases s.len(),
{
    if s.len() > 0 && s[0] == '\\' {
        lemma_backslash_run_bound(s.drop_first());
    }
}

/// `n` backslashes.
pub open spec fn backslashes(n: nat) -> Seq<char> {
    Seq::new(n, |i: int| '\\')
}

/// The argument being read so far (none until a character starts it).
pub open spec fn started(cur: Option<Seq<char>>) -> Seq<char> {
    match cur {
        Some(c) => c,
        None => seq![],
    }
}

/// Splits the rest `s` of a Windows command line into arguments, by the rules of the Microsoft
/// C runtime and `CommandLineToArgvW` for the arguments after the program name:
/// - outside quotes, spaces and tabs separate arguments;
/// - a double quote opens or closes a quoted part (and starts an argument, so `""` is one empty
///   argument); inside quotes, `""` is a literal quote;
/// - `2n` backslashes before a quote give `n` backslashes and the quote delimits; `2n + 1`
///   backslashes before a quote give `n` backslashes and a literal quote;
/// - backslashes not before a quote are literal.
///
/// `in_quotes` is the quoting state, `cur` the argument being read, `acc` those already read.
pub open spec fn windows_split(
    s: Seq<char>,
    in_quotes: bool,
    cur: Option<Seq<char>>,
    acc: Seq<Seq<char>>,
) -> Seq<Seq<char>>
    decreases s.len(),
{
    if s.len() == 0 {
        match cur {
            Some(c) => acc.push(c),
            None => acc,
        }
    } else if s[0] == '\\' {
        proof {
            lemma_backslash_run_bound(s);
        }
        let n = backslash_run(s);
        if n < s.len() && s[n as int] == '"' {
            if n % 2 == 1 {
                windows_split(
                    s.skip(n as int + 1),
                    in_quotes,
                    Some(started(cur) + backslashes(n / 2) + seq!['"']),
                    acc,
                )
            } else {
                windows_split(s.skip(n as int), in_quotes, Some(started(cur) + backslashes(n / 2)), acc)
            }
        } else {
            windows_split(s.skip(n as int), in_quotes, Some(started(cur) + backslashes(n)), acc)
        }
    } else if s[0] == '"' {
        if in_quotes && s.len() >= 2 && s[1] == '"' {
            windows_split(s.skip(2), true, Some(started(cur) + seq!['"']), acc)
        } else {
            windows_split(s.drop_first(), !in_quotes, Some(started(cur)), acc)
        }
    } else if (s[0] == ' ' || s[0] == '\t') && !in_quotes {
        windows_split(
            s.drop_first(),
            false,
            None,
            match cur {
                Some(c) => acc.push(c),
                None => acc,
            },
        )
    } else {
        windows_split(s.drop_first(), in_quotes, Some(started(cur) + seq![s[0]]), acc)
    }
}

/// The arguments a Windows program reads from the command-line text `s` (after its name).
pub open spec fn windows_arguments(s: Seq<char>) -> Seq<Seq<char>> {
    windows_split(s, false, None, seq![])
}

/// Inside quotes, the escaped rest of an argument followed by the closing quote reads back as
/// that rest, ending the argument.
proof fn lemma_windows_split_quoted(t: Seq<char>, pre: Seq<char>)
    requires
        forall|i: int| 0 <= i < t.len() ==> #[trigger] t[i] != '\\',
    ensures
        windows_split(
            t.flat_map(|c: char| windows_escape_char(c)) + seq!['"'],
            true,
            Some(pre),
            seq![],
        ) == seq![pre + t],
    decreases t.len(),
{
    let f = |c: char| windows_escape_char(c);
    if t.len() == 0 {
        assert(t.flat_map(f) =~= Seq::<char>::empty());
        let s = t.flat_map(f) + seq!['"'];
        assert(s =~= seq!['"']);
        assert(s.drop_first() =~= Seq::<char>::empty());
        assert(pre + t =~= pre);
        assert(windows_split(s, true, Some(pre), seq![]) == windows_split(
            s.drop_first(),
            false,
            Some(pre),
            seq![],
        ));
        assert(Seq::<Seq<char>>::empty().push(pre) =~= seq![pre]);
    } else {
        lemma_flat_map_front(t, f);
        let rest = t.drop_first();
        let r = rest.flat_map(f) + seq!['"'];
        let s = t.flat_map(f) + seq!['"'];
        assert(forall|i: int| 0 <= i < rest.len() ==> #[trigger] rest[i] == t[i + 1]);
        lemma_windows_split_quoted(rest, pre + seq![t[0]]);
        assert(pre + seq![t[0]] + rest =~= pre + t);
        if t[0] == '"' {
            assert(s =~= seq!['\\', '"'] + r);
            assert(s.drop_first()[0] == '"');
            assert(backslash_run(s.drop_first()) == 0);
            assert(backslash_run(s) == 1);
            assert(s.skip(2) =~= r);
            assert(backslashes(0) =~= Seq::<char>::empty());
            assert(started(Some(pre)) + backslashes(0) + seq!['"'] =~= pre + seq![t[0]]);
            assert(windows_split(s, true, Some(pre), seq![]) == windows_split(
                s.skip(2),
                true,
                Some(started(Some(pre)) + backslashes(0) + seq!['"']),
                seq![],
            ));
        } else {
            assert(s =~= seq![t[0]] + r);
            assert(s.drop_first() =~= r);
            assert(windows_split(s, true, Some(pre), seq![]) == windows_split(
                s.drop_first(),
                true,
                Some(started(Some(pre)) + seq![s[0]]),
                seq![],
            ));
        }
    }
}

/// Outside quotes, a run of ordinary characters extends the argument being read.
proof fn lemma_windows_split_plain(t: Seq<char>, pre: Seq<char>)
    requires
        forall|i: int|
            0 <= i < t.len() ==> #[trigger] t[i] != '\\' && t[i] != '"' && t[i] != ' ' && t[i]
                != '\t',
    ensures
        windows_split(t, false, Some(pre), seq![]) == seq![pre + t],
    decreases t.len(),
{
    if t.len() == 0 {
        assert(pre + t =~= pre);
    } else {
        let rest = t.drop_first();
        assert(forall|i: int| 0 <= i < rest.len() ==> #[trigger] rest[i] == t[i + 1]);
        lemma_windows_split_plain(rest, pre + seq![t[0]]);
        assert(pre + seq![t[0]] + rest =~= pre + t);
    }
}

/// A quoted argument is read back by a Windows program as exactly one argument, equal to the
/// argument that was quoted, when the argument holds no backslash: an empty argument stays one
/// empty argument, and spaces, tabs and quotes survive.
pub proof fn lemma_windows_quote_splits_to_one_argument(arg: Seq<char>)
    requires
        forall|i: int| 0 <= i < arg.len() ==> #[trigger] arg[i] != '\\',
    ensures
        windows_arguments(windows_quoted(arg)) == seq![arg],
{
    let f = |c: char| windows_escape_char(c);
    if crate::format::windows_arg_needs_quotes(arg) {
        let q = windows_quoted(arg);
        assert(q =~= seq!['"'] + (arg.flat_map(f) + seq!['"']));
        assert(q.drop_first() =~= arg.flat_map(f) + seq!['"']);
        lemma_windows_split_quoted(arg, seq![]);
        assert(started(None) == Seq::<char>::empty());
        assert(Seq::<char>::empty() + arg =~= arg);
    } else {
        assert(arg.len() > 0);
        assert forall|i: int| 0 <= i < arg.len() implies #[trigger] arg[i] != '\\' && arg[i] != '"'
            && arg[i] != ' ' && arg[i] != '\t' by {
            if arg[i] == '"' || arg[i] == ' ' || arg[i] == '\t' {
                assert(is_ascii_white_space(arg[i]) || arg[i] == '"');
            }
        }
        let rest = arg.drop_first();
        assert(forall|i: int| 0 <= i < rest.len() ==> #[trigger] rest[i] == arg[i + 1]);
        lemma_windows_split_plain(rest, seq![arg[0]]);
        assert(seq![arg[0]] + rest =~= arg);
        assert(started(None) + seq![arg[0]] =~= seq![arg[0]]);
    }
}

/// Whether `s` can stand between the quotes of a VBScript string literal: every quote in it is
/// doubled.
pub open spec fn vbscript_inner_ok(s: Seq<char>) -> bool
    decreases s.len(),
{
    if s.len() == 0 {
        true
    } else if s[0] == '"' {
        s.len() >= 2 && s[1] == '"' && vbscript_inner_ok(s.skip(2))
    } else {
        vbscript_inner_ok(s.drop_first())
    }
}

/// Whether `l` is a well-formed VBScript string literal: quotes around text whose own quotes
/// are doubled.
pub open spec fn is_vbscript_literal(l: Seq<char>) -> bool {
    l.len() >= 2 && l[0] == '"' && l.last() == '"' && vbscript_inner_ok(l.subrange(1, l.len() - 1))
}

proof fn lemma_vbscript_inner_ok(s: Seq<char>)
    ensures
        vbscript_inner_ok(s.flat_map(|c: char| vbscript_escape_char(c))),
    decreases s.len(),
{
    let f = |c: char| vbscript_escape_char(c);
    if s.len() == 0 {
        assert(s.flat_map(f) =~= Seq::<char>::empty());
    } else {
        lemma_flat_map_front(s, f);
        lemma_vbscript_inner_ok(s.drop_first());
        let rest = s.drop_first().flat_map(f);
        let t = f(s[0]) + rest;
        if s[0] == '"' {
            assert(t.skip(2) =~= rest);
        } else {
            assert(t.drop_first() =~= rest);
        }
    }
}

/// Every VBScript literal this library writes is well formed and denotes its text.
pub proof fn lemma_vbscript_literal_well_formed(s: Seq<char>)
    ensures
        is_vbscript_literal(vbscript_literal(s)),
        vbscript_value(vbscript_literal(s)) == s,
{
    let inner = s.flat_map(|c: char| vbscript_escape_char(c));
    assert(vbscript_literal(s).subrange(1, vbscript_literal(s).len() - 1) =~= inner);
    lemma_vbscript_inner_ok(s);
    lemma_vbscript_round_trip(s);
}

/// The Windows notification script is `MsgBox <title>, 64, <caption>` (with
/// ` & vbCrLf & <body>` after the title when there is a body), where the title, the body and the
/// caption are well-formed VBScript string literals that denote exactly the notification's
/// title, its body, and `ccplan`.
pub proof fn lemma_msgbox_script_shows_title_and_body(title: Seq<char>, body: Seq<char>)
    ensures
        exists|l1: Seq<char>, l2: Seq<char>, l3: Seq<char>|
            #![trigger is_vbscript_literal(l1), is_vbscript_literal(l2), is_vbscript_literal(l3)]
            is_vbscript_literal(l1) && vbscript_value(l1) == title && is_vbscript_literal(l2)
                && vbscript_value(l2) == body && is_vbscript_literal(l3) && vbscript_value(l3)
                == "ccplan"@ && msgbox_script_text(title, body) == "MsgBox "@ + l1 + (if body.len()
                == 0 {
                Seq::<char>::empty()
            } else {
                " & vbCrLf & "@ + l2
            }) + ", 64, "@ + l3 + "\r\n"@,
{
    lemma_vbscript_literal_well_formed(title);
    lemma_vbscript_literal_well_formed(body);
    lemma_vbscript_literal_well_formed("ccplan"@);
    let l1 = vbscript_literal(title);
    let l2 = vbscript_literal(body);
    let l3 = vbscript_literal("ccplan"@);
    reveal_strlit(", ");
    reveal_strlit(", 64, ");
    assert(MSGBOX_INFORMATION as nat == 64);
    assert(decimal(6) == seq!['6']);
    assert(decimal(64) == decimal(6) + seq![digit_char(4)]);
    assert(decimal(MSGBOX_INFORMATION as nat) =~= seq!['6', '4']);
    assert(", "@ + decimal(MSGBOX_INFORMATION as nat) + ", "@ =~= ", 64, "@);
    if body.len() == 0 {
        assert(msgbox_script_text(title, body) =~= "MsgBox "@ + l1 + Seq::<char>::empty() + ", 64, "@
            + l3 + "\r\n"@);
    } else {
        assert(msgbox_script_text(title, body) =~= "MsgBox "@ + l1 + (" & vbCrLf & "@ + l2) + ", 64, "@
            + l3 + "\r\n"@);
    }
    assert(is_vbscript_literal(l1) && is_vbscript_literal(l2) && is_vbscript_literal(l3));
}

/// `schtasks.exe` is taken to report a missing task exactly when its output (standard output
/// then standard error) contains `cannot find` or `does not exist`.
pub proof fn lemma_missing_task_is_one_of_two_phrases(output: CommandOutput)
    ensures
        reports_missing_task(output) <==> (contains_seq(
            output.stdout@ + output.stderr@,
            "cannot find"@,
        ) || contains_seq(output.stdout@ + output.stderr@, "does not exist"@)),
{
}

proof fn lemma_timer_ids_of_are_units(ws: Seq<Seq<char>>)
    ensures
        forall|i: int|
            0 <= i < timer_ids_of(ws).len() ==> ws.contains(timer_unit(#[trigger] timer_ids_of(ws)[i])),
    decreases ws.len(),
{
    if ws.len() > 0 {
        lemma_timer_ids_of_are_units(ws.drop_first());
        let ids = timer_ids_of(ws);
        let tail = timer_ids_of(ws.drop_first());
        assert forall|i: int| 0 <= i < ids.len() implies ws.contains(timer_unit(#[trigger] ids[i])) by {
            if is_timer_unit(ws[0]) && i == 0 {
                let w = ws[0];
                assert(w.take(7) == systemd_unit_prefix());
                assert(w.skip(7).skip(w.skip(7).len() - 6) == timer_suffix());
                assert(w =~= w.take(7) + timer_unit_id(w) + w.skip(7).skip(w.skip(7).len() - 6));
                assert(ws[0] == timer_unit(ids[0]));
            } else {
                let j = if is_timer_unit(ws[0]) { i - 1 } else { i };
                assert(ids[i] == tail[j]);
                let k = choose|k: int| 0 <= k < ws.drop_first().len() && ws.drop_first()[k]
                    == timer_unit(tail[j]);
                assert(ws[k + 1] == timer_unit(ids[i]));
            }
        }
    }
}

/// Listing reports nothing it was not given: every id that a `list-timers` listing yields is
/// the id of a `ccplan-<id>.timer` unit that appears as a field of the listing.
pub proof fn lemma_listed_timer_ids_come_from_units(output: Seq<char>)
    ensures
        forall|i: int|
            0 <= i < timer_ids(output).len() ==> words(output).contains(
                timer_unit(#[trigger] timer_ids(output)[i]),
            ),
{
    lemma_timer_ids_of_are_units(words(output));
}

/// Whether `line`, trimmed, is a `TaskName:` line whose trimmed value is the task path
/// `\ccplan\<id>`.
pub open spec fn line_names_task(line: Seq<char>, id: Seq<char>) -> bool {
    has_prefix(trim(line), task_name_key()) && trim(trim(line).skip(9)) == windows_task_prefix()
        + id
}

/// Whether one of the lines `ls` names the task `id`.
pub open spec fn some_line_names_task(ls: Seq<Seq<char>>, id: Seq<char>) -> bool {
    exists|k: int| 0 <= k < ls.len() && #[trigger] line_names_task(ls[k], id)
}

proof fn lemma_task_ids_of_are_task_lines(ls: Seq<Seq<char>>)
    ensures
        forall|i: int|
            0 <= i < task_ids_of(ls).len() ==> some_line_names_task(ls, #[trigger] task_ids_of(ls)[i]),
    decreases ls.len(),
{
    if ls.len() > 0 {
        lemma_task_ids_of_are_task_lines(ls.drop_first());
        let ids = task_ids_of(ls);
        let tail = task_ids_of(ls.drop_first());
        assert forall|i: int| 0 <= i < ids.len() implies some_line_names_task(ls, #[trigger] ids[i]) by {
            if is_task_line(ls[0]) && i == 0 {
                let v = task_name_value(ls[0]);
                assert(ids[0] == task_line_id(ls[0]));
                assert(v.take(8) == windows_task_prefix());
                assert(v =~= windows_task_prefix() + v.skip(8));
                assert(line_names_task(ls[0], ids[0]));
            } else {
                let j = if is_task_line(ls[0]) { i - 1 } else { i };
                assert(ids[i] == tail[j]);
                assert(some_line_names_task(ls.drop_first(), tail[j]));
                let k = choose|k: int|
                    0 <= k < ls.drop_first().len() && #[trigger] line_names_task(
                        ls.drop_first()[k],
                        tail[j],
                    );
                assert(ls[k + 1] == ls.drop_first()[k]);
                assert(line_names_task(ls[k + 1], ids[i]));
            }
        }
    }
}

/// Listing reports nothing it was not given: every id that a `schtasks` listing yields comes
/// from one of its lines that, trimmed, starts with `TaskName:` and whose trimmed value is the
/// task path `\ccplan\<id>`.
pub proof fn lemma_listed_task_ids_come_from_task_lines(output: Seq<char>)
    ensures
        forall|i: int|
            0 <= i < task_ids(output).len() ==> some_line_names_task(
                lines(output),
                #[trigger] task_ids(output)[i],
            ),
{
    lemma_task_ids_of_are_task_lines(lines(output));
}

/// A Task Scheduler boundary is local wall-clock time: the instant rendered at the UTC offset
/// that the zone has at that instant, as `zone_offset` looks it up, and at no other offset.
pub proof fn lemma_windows_boundary_at_zone_offset(
    timestamp: Instant,
    zone: jiff::tz::TimeZone,
    boundary: String,
)
    requires
        call_ensures(windows_boundary, (&timestamp, &zone), boundary),
    ensures
        exists|offset: i32|
            call_ensures(zone_offset, (&zone, &timestamp), offset) && offset_valid(offset)
                && boundary@ == #[trigger] jiff_strftime_at_offset(
                timestamp@.0,
                timestamp@.1,
                offset,
                windows_boundary_format(),
            ),
{
}

/// The launchd calendar fields are the local civil time of the instant: the month, day, hour,
/// minute and second at the UTC offset that the zone has at that instant, as `zone_offset` looks
/// it up.
pub proof fn lemma_calendar_interval_at_zone_offset(
    timestamp: Instant,
    zone: jiff::tz::TimeZone,
    fields: CalendarInterval,
)
    requires
        call_ensures(calendar_interval, (&timestamp, &zone), fields),
    ensures
        exists|offset: i32|
            call_ensures(zone_offset, (&zone, &timestamp), offset) && offset_valid(offset) && (
            fields.month,
            fields.day,
            fields.hour,
            fields.minute,
            fields.second,
            ) == #[trigger] jiff_civil_at_offset(timestamp@.0, timestamp@.1, offset),
{
}

/// The one-shot task starts at the scheduled instant and expires ten minutes later, both as
/// local wall-clock boundaries: the start is the scheduled instant at the offset the zone has
/// then, and the end is the instant `TASK_EXPIRY_SECONDS` later at the offset the zone has then.
pub proof fn lemma_task_xml_boundaries_are_local(
    binary_display: &str,
    working_dir: &str,
    scheduled_at: Instant,
    zone: jiff::tz::TimeZone,
    fire_args: Vec<String>,
    xml: String,
)
    requires
        call_ensures(
            task_xml,
            (binary_display, working_dir, &scheduled_at, &zone, &fire_args),
            Ok::<String, SchedulerError>(xml),
        ),
    ensures
        exists|start_offset: i32, end_offset: i32, end: Instant|
            call_ensures(zone_offset, (&zone, &scheduled_at), start_offset) && call_ensures(
                zone_offset,
                (&zone, &end),
                end_offset,
            ) && offset_valid(start_offset) && offset_valid(end_offset) && instant_parts_valid(
                end@.0,
                end@.1,
            ) && total_nanos(end@.0 as int, end@.1 as int) == total_nanos(
                scheduled_at@.0 + TASK_EXPIRY_SECONDS,
                scheduled_at@.1 as int,
            ) && xml@ == #[trigger] task_document(
                binary_display@,
                jiff_strftime_at_offset(
                    scheduled_at@.0,
                    scheduled_at@.1,
                    start_offset,
                    windows_boundary_format(),
                ),
                jiff_strftime_at_offset(end@.0, end@.1, end_offset, windows_boundary_format()),
                joined_with_spaces(quoted_args(fire_args@)),
                working_dir@,
            ),
{
}

} // verus!
