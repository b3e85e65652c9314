//! The Windows notifier: a VBScript `MsgBox` run by `wscript.exe`, written as UTF-16LE.
use vstd::prelude::*;
use super::{Notification, NotifyError};
use crate::format::{vbscript_chars, vbscript_literal};
use crate::text::{chars_of, decimal, push_chars, push_decimal, push_str, string_from_chars};

verus! {

broadcast use vstd::string::group_string_axioms;

/// The notification environment is usable when `wscript.exe` is a file at the expected path.
pub fn platform_notification_check(wscript_path: &str, wscript_is_file: bool) -> (res: Result<
    (),
    NotifyError,
>)
    ensures
        res is Ok <==> wscript_is_file,
        res matches Err(e) ==> e == NotifyError::Operation(e->Operation_0) && e->Operation_0@
            == "wscript.exe is unavailable at "@ + wscript_path@,
{
    if wscript_is_file {
        Ok(())
    } else {
        let mut out = chars_of("wscript.exe is unavailable at ");
        push_str(&mut out, wscript_path);
        Err(NotifyError::Operation(string_from_chars(&out)))
    }
}

/// `vbInformation`, the `MsgBox` style of a notification.
pub const MSGBOX_INFORMATION: u32 = 64u32;

/// The `MsgBox` prompt: the title, then the body on its own line when there is one (a VBScript
/// string literal cannot hold a line break, so the two are joined with `vbCrLf`).
pub open spec fn msgbox_prompt(title: Seq<char>, body: Seq<char>) -> Seq<char> {
    if body.len() == 0 {
        vbscript_literal(title)
    } else {
        vbscript_literal(title) + " & vbCrLf & "@ + vbscript_literal(body)
    }
}

/// `MsgBox <prompt>, 64, "ccplan"` and a CRLF: the whole notification script.
pub open spec fn msgbox_script_text(title: Seq<char>, body: Seq<char>) -> Seq<char> {
    "MsgBox "@ + msgbox_prompt(title, body) + ", "@ + decimal(MSGBOX_INFORMATION as nat) + ", "@
        + vbscript_literal("ccplan"@) + "\r\n"@
}

/// The VBScript that shows the notification in a message box captioned `ccplan`.
pub fn msgbox_script(notification: &Notification) -> (res: String)
    ensures
        res@ == msgbox_script_text(notification.title@, notification.body@),
{
    let title = vbscript_chars(&chars_of(notification.title.as_str()));
    let mut out = chars_of("MsgBox ");
    push_chars(&mut out, &title);
    if !notification.body.as_str().is_empty() {
        push_str(&mut out, " & vbCrLf & ");
        let body = vbscript_chars(&chars_of(notification.body.as_str()));
        push_chars(&mut out, &body);
    }
    push_str(&mut out, ", ");
    push_decimal(&mut out, MSGBOX_INFORMATION as u128);
    push_str(&mut out, ", ");
    let caption = vbscript_chars(&chars_of("ccplan"));
    push_chars(&mut out, &caption);
    push_str(&mut out, "\r\n");
    string_from_chars(&out)
}

/// `notify-<pid>-<millis>.vbs`, the file name of one notification script.
pub open spec fn script_file_name(pid: u32, millis: u128) -> Seq<char> {
    "notify-"@ + decimal(pid as nat) + "-"@ + decimal(millis as nat) + ".vbs"@
}

/// The file name of the script for the process `pid` at `millis` milliseconds since the epoch.
pub fn notify_script_file_name(pid: u32, millis: u128) -> (res: String)
    ensures
        res@ == script_file_name(pid, millis),
{
    let mut out = chars_of("notify-");
    push_decimal(&mut out, pid as u128);
    push_str(&mut out, "-");
    push_decimal(&mut out, millis);
    push_str(&mut out, ".vbs");
    string_from_chars(&out)
}

/// Where a path starts: the value of an environment variable, or a fixed directory.
#[derive(Debug)]
pub enum PathBase {
    /// `CCPLAN_ROOT`
    CcplanRoot,
    /// `LOCALAPPDATA`
    LocalAppData,
    /// `SystemRoot`
    SystemRoot,
    /// A fixed directory.
    Fixed(String),
}

/// A path: `base` joined with `components`.
#[derive(Debug)]
pub struct PathPlan {
    pub base: PathBase,
    pub components: Vec<String>,
}

/// Whether `components` are exactly the given names.
pub open spec fn components_are(components: Seq<String>, names: Seq<Seq<char>>) -> bool {
    components.len() == names.len() && forall|i: int|
        0 <= i < names.len() ==> #[trigger] components[i]@ == names[i]
}

/// The message when no scripts directory can be chosen.
pub open spec fn missing_local_app_data_message() -> Seq<char> {
    "LOCALAPPDATA is unset"@
}

/// The scripts directory: `$CCPLAN_ROOT\data` when `CCPLAN_ROOT` is set, else
/// `%LOCALAPPDATA%\ccplan\data`; an error when neither is set.
pub fn notify_scripts_dir(ccplan_root_set: bool, local_app_data_set: bool) -> (res: Result<
    PathPlan,
    NotifyError,
>)
    ensures
        res is Ok <==> (ccplan_root_set || local_app_data_set),
        res matches Ok(dir) ==> if ccplan_root_set {
            dir.base is CcplanRoot && components_are(dir.components@, seq!["data"@])
        } else {
            dir.base is LocalAppData && components_are(
                dir.components@,
                seq!["ccplan"@, "data"@],
            )
        },
        res matches Err(e) ==> e == NotifyError::Operation(e->Operation_0) && e->Operation_0@
            == missing_local_app_data_message(),
{
    if ccplan_root_set {
        let mut components: Vec<String> = Vec::new();
        components.push("data".to_owned());
        Ok(PathPlan { base: PathBase::CcplanRoot, components })
    } else if local_app_data_set {
        let mut components: Vec<String> = Vec::new();
        components.push("ccplan".to_owned());
        components.push("data".to_owned());
        Ok(PathPlan { base: PathBase::LocalAppData, components })
    } else {
        Err(NotifyError::Operation("LOCALAPPDATA is unset".to_owned()))
    }
}

/// Where `wscript.exe` is expected: `%SystemRoot%\System32\wscript.exe`, with `C:\Windows`
/// standing in for an unset `SystemRoot`.
pub fn wscript_path(system_root_set: bool) -> (res: PathPlan)
    ensures
        if system_root_set {
            res.base is SystemRoot
        } else {
            res.base matches PathBase::Fixed(dir) && dir@ == "C:\\Windows"@
        },
        components_are(res.components@, seq!["System32"@, "wscript.exe"@]),
{
    let base = if system_root_set {
        PathBase::SystemRoot
    } else {
        PathBase::Fixed("C:\\Windows".to_owned())
    };
    let mut components: Vec<String> = Vec::new();
    components.push("System32".to_owned());
    components.push("wscript.exe".to_owned());
    PathPlan { base, components }
}

/// The UTF-16 code units of one character: itself below `U+10000`, else its surrogate pair.
pub open spec fn utf16_units(c: char) -> Seq<int> {
    let u = c as u32 as int;
    if u < 0x10000 {
        seq![u]
    } else {
        seq![0xD800 + (u - 0x10000) / 0x400, 0xDC00 + (u - 0x10000) % 0x400]
    }
}

/// The little-endian bytes of the UTF-16 encoding of one character.
pub open spec fn utf16le_bytes(c: char) -> Seq<u8> {
    let units = utf16_units(c);
    if units.len() == 1 {
        seq![(units[0] % 256) as u8, (units[0] / 256) as u8]
    } else {
        seq![
            (units[0] % 256) as u8,
            (units[0] / 256) as u8,
            (units[1] % 256) as u8,
            (units[1] / 256) as u8,
        ]
    }
}

/// The UTF-16LE byte-order mark.
pub open spec fn utf16le_bom() -> Seq<u8> {
    seq![0xFFu8, 0xFEu8]
}

/// The script as a UTF-16LE file with a byte-order mark (wscript reads Unicode scripts
/// reliably in that encoding).
pub fn utf16le_with_bom(script: &str) -> (res: Vec<u8>)
    ensures
        res@ == utf16le_bom() + script@.flat_map(|c: char| utf16le_bytes(c)),
{
    let v = chars_of(script);
    let mut bytes: Vec<u8> = Vec::new();
    bytes.push(0xFF);
    bytes.push(0xFE);
    let mut i: usize = 0;
    while i < v.len()
        invariant
            i <= v.len(),
            bytes@ == utf16le_bom() + v@.take(i as int).flat_map(|c: char| utf16le_bytes(c)),
        decreases v.len() - i,
    {
        let u = v[i] as u32;
        if u < 0x10000 {
            bytes.push((u % 256) as u8);
            bytes.push((u / 256) as u8);
        } else {
            let hi = 0xD800 + (u - 0x10000) / 0x400;
            let lo = 0xDC00 + (u - 0x10000) % 0x400;
            bytes.push((hi % 256) as u8);
            bytes.push((hi / 256) as u8);
            bytes.push((lo % 256) as u8);
            bytes.push((lo / 256) as u8);
        }
        proof {
            v@.lemma_flat_map_take_append(|c: char| utf16le_bytes(c), i as int);
        }
        i = i + 1;
    }
    assert(v@.take(v.len() as int) =~= v@);
    bytes
}

} // verus!
