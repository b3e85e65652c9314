//! Pure formatting, parsing and decision logic of the ccplan platform backends: the names of
//! the native triggers, the listings they are read back from, the task XML and notifier
//! scripts, and what each backend concludes from what a command reported.
pub mod text;
pub mod format;
pub mod order;
pub mod listing;
pub mod time;
pub mod output;
pub mod doctor;
pub mod schtasks;
pub mod notify;
pub mod laws;
