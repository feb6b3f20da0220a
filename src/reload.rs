use vstd::prelude::*;

verus! {

/// The countdown that decides when a cycle rescans every location in full.
pub struct ReloadScheduler {
    /// Every how many incremental cycles a full rescan comes; `None` for never.
    pub interval: Option<u32>,
    /// Incremental cycles left before the next full rescan.
    pub remaining: u32,
}

impl ReloadScheduler {
    pub fn new(interval: Option<u32>) -> (r: ReloadScheduler)
        ensures
            r.interval == interval,
            r.remaining == (match interval {
                Some(n) => n,
                None => 0,
            }),
    {
        let remaining = match interval {
            Some(n) => n,
            None => 0,
        };
        ReloadScheduler { interval, remaining }
    }

    /// Starts a cycle and says whether it ignores the cached cutoffs. A due
    /// full rescan resets the countdown to the interval; any other cycle with
    /// an interval counts down by one.
    pub fn next_cycle(&mut self) -> (ignore_cache: bool)
        ensures
            final(self).interval == old(self).interval,
            match old(self).interval {
                None => !ignore_cache && final(self).remaining == old(self).remaining,
                Some(n) => if old(self).remaining == 0 {
                    ignore_cache && final(self).remaining == n
                } else {
                    !ignore_cache && final(self).remaining == old(self).remaining - 1
                },
            },
    {
        match self.interval {
            Some(n) => {
                if self.remaining == 0 {
                    self.remaining = n;
                    true
                } else {
                    self.remaining = self.remaining - 1;
                    false
                }
            },
            None => false,
        }
    }
}

} // verus!
