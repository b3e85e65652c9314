//! The result of one `ccplan doctor` check.
use vstd::prelude::*;

verus! {

/// How a doctor check came out.
#[derive(PartialEq, Eq, Structural, Debug, Clone, Copy)]
pub enum CheckLevel {
    Pass,
    Warning,
    Error,
}

/// One line of `ccplan doctor`: what was checked, how it came out, what was found and, for a
/// problem, how to fix it.
#[derive(Debug)]
pub struct DoctorCheck {
    pub name: String,
    pub level: CheckLevel,
    pub message: String,
    pub hint: Option<String>,
}

/// Whether `check` reads `name`, `level`, `message` and, if any, `hint`.
pub open spec fn reads(
    check: DoctorCheck,
    name: Seq<char>,
    level: CheckLevel,
    message: Seq<char>,
    hint: Option<Seq<char>>,
) -> bool {
    &&& check.name@ == name
    &&& check.level == level
    &&& check.message@ == message
    &&& match check.hint {
        Some(h) => hint == Some(h@),
        None => hint is None,
    }
}

impl DoctorCheck {
    /// A passing check.
    pub fn ok(name: &str, message: &str) -> (res: DoctorCheck)
        ensures
            reads(res, name@, CheckLevel::Pass, message@, None),
    {
        DoctorCheck {
            name: name.to_owned(),
            level: CheckLevel::Pass,
            message: message.to_owned(),
            hint: None,
        }
    }

    /// A check that found a problem that does not stop scheduling.
    pub fn warning(name: &str, message: &str, hint: &str) -> (res: DoctorCheck)
        ensures
            reads(res, name@, CheckLevel::Warning, message@, Some(hint@)),
    {
        DoctorCheck {
            name: name.to_owned(),
            level: CheckLevel::Warning,
            message: message.to_owned(),
            hint: Some(hint.to_owned()),
        }
    }

    /// A failing check.
    pub fn error(name: &str, message: &str, hint: &str) -> (res: DoctorCheck)
        ensures
            reads(res, name@, CheckLevel::Error, message@, Some(hint@)),
    {
        DoctorCheck {
            name: name.to_owned(),
            level: CheckLevel::Error,
            message: message.to_owned(),
            hint: Some(hint.to_owned()),
        }
    }
}

} // verus!
