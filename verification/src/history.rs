//! The download history kept by the command line: its rows and where the
//! database lives.

use vstd::prelude::*;
use crate::paths::{path_join, path_join_of};
use crate::registry::EntryStatus;
use crate::text::{chars_eq_str, chars_of};

verus! {

/// The history database under the data directory: `<data_dir>/history.db`.
pub fn history_path(data_dir: &str) -> (p: String)
    ensures
        p@ == path_join_of(data_dir@, "history.db"@),
{
    path_join(data_dir, "history.db")
}

/// One finished (or abandoned) download as the history keeps it.
#[derive(Debug, Clone)]
pub struct HistoryEntry {
    pub id: String,
    pub url: String,
    pub final_url: Option<String>,
    pub dest: String,
    pub status: EntryStatus,
    pub size: u64,
    pub sha256: Option<String>,
    pub started_at: String,
    pub updated_at: String,
}

/// A stored status word; anything unknown reads as still downloading.
pub fn parse_status(value: &str) -> (s: EntryStatus)
    ensures
        s == (if value@ == "completed"@ {
            EntryStatus::Completed
        } else if value@ == "cancelled"@ {
            EntryStatus::Cancelled
        } else if value@ == "failed"@ {
            EntryStatus::Failed
        } else {
            EntryStatus::Downloading
        }),
{
    let cs = chars_of(value);
    if chars_eq_str(cs.as_slice(), "completed") {
        EntryStatus::Completed
    } else if chars_eq_str(cs.as_slice(), "cancelled") {
        EntryStatus::Cancelled
    } else if chars_eq_str(cs.as_slice(), "failed") {
        EntryStatus::Failed
    } else {
        EntryStatus::Downloading
    }
}

} // verus!
