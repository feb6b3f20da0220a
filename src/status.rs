use vstd::prelude::*;
use crate::time::{Timestamp, utc_text, utc_text_of};

verus! {

/// What the indexer is doing: scanning the named location, or idle since the
/// end of the last cycle.
pub enum ScanStatus {
    Busy(String),
    Waiting(Timestamp),
}

/// The text a status query shows.
pub open spec fn status_text_of(s: ScanStatus) -> Seq<char> {
    match s {
        ScanStatus::Busy(name) => "Busy with: "@ + name@,
        ScanStatus::Waiting(t) => match utc_text_of(t.secs as int, t.nanos as int) {
            Some(when) => "Waiting since: "@ + when,
            None => "Waiting"@,
        },
    }
}

impl ScanStatus {
    /// The status as shown to a status query: `Busy with: {name}` or
    /// `Waiting since: {time}`.
    pub fn to_text(&self) -> (r: String)
        ensures
            r@ == status_text_of(*self),
    {
        match self {
            ScanStatus::Busy(name) => {
                let mut r = "Busy with: ".to_owned();
                r.append(name.as_str());
                r
            },
            ScanStatus::Waiting(t) => match utc_text(t) {
                Some(when) => {
                    let mut r = "Waiting since: ".to_owned();
                    r.append(when.as_str());
                    r
                },
                None => "Waiting".to_owned(),
            },
        }
    }
}

} // verus!
