use vstd::prelude::*;

verus! {

/// A UTC instant: whole seconds since the Unix epoch and the nanoseconds
/// within that second.
#[derive(Clone, Copy, Debug, PartialEq, Eq, Structural)]
pub struct Timestamp {
    pub secs: i64,
    pub nanos: u32,
}

/// The sentinel cutoff written for a location seen for the first time: the
/// earliest instant a `Timestamp` holds, before every real modification time.
pub open spec fn epoch_time() -> Timestamp {
    Timestamp { secs: i64::MIN, nanos: 0 }
}

impl Timestamp {
    /// `self` comes strictly after `other`.
    pub open spec fn after(self, other: Timestamp) -> bool {
        self.secs > other.secs || (self.secs == other.secs && self.nanos > other.nanos)
    }

    /// `self` comes no earlier than `other`.
    pub open spec fn not_before(self, other: Timestamp) -> bool {
        !other.after(self)
    }

    /// The later of two instants.
    pub open spec fn latest(self, other: Timestamp) -> Timestamp {
        if other.after(self) {
            other
        } else {
            self
        }
    }

    pub fn epoch() -> (r: Timestamp)
        ensures
            r == epoch_time(),
    {
        Timestamp { secs: i64::MIN, nanos: 0 }
    }

    /// No instant comes before the epoch sentinel.
    pub proof fn lemma_epoch_first(t: Timestamp)
        ensures
            t.not_before(epoch_time()),
    {
    }

    pub fn is_after(&self, other: &Timestamp) -> (r: bool)
        ensures
            r == self.after(*other),
    {
        self.secs > other.secs || (self.secs == other.secs && self.nanos > other.nanos)
    }

    pub fn later_of(&self, other: &Timestamp) -> (r: Timestamp)
        ensures
            r == self.latest(*other),
    {
        if other.is_after(self) {
            *other
        } else {
            *self
        }
    }
}

/// What chrono shows for the UTC instant `secs` seconds and `nanos`
/// nanoseconds after the Unix epoch, or `None` where chrono cannot hold it.
pub uninterp spec fn utc_text_of(secs: int, nanos: int) -> Option<Seq<char>>;

/// Relies on `DateTime::<Utc>::from_timestamp` and the `Display` of
/// `DateTime<Utc>` in chrono.
#[verifier::external_body]
pub(crate) fn utc_text(t: &Timestamp) -> (r: Option<String>)
    ensures
        r matches Some(s) ==> utc_text_of(t.secs as int, t.nanos as int) == Some(s@),
        r is None ==> utc_text_of(t.secs as int, t.nanos as int) is None,
{
    chrono::DateTime::from_timestamp(t.secs, t.nanos).map(|d| d.to_string())
}

} // verus!
