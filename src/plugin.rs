use vstd::prelude::*;
use crate::cache::TimingCache;
use crate::cycle::{LocationRun, Reply, Stage, Step, awaits, step_taken};
use crate::reload::ReloadScheduler;
use crate::scan::Media;
use crate::signing::{SigningService, signed_by};
use crate::status::{ScanStatus, status_text_of};
use crate::time::Timestamp;
use crate::wire::SignedMedia;

verus! {

/// One configured root to index, under its name.
pub struct MediaLocation {
    pub name: String,
    pub location: String,
}

impl MediaLocation {
    pub fn named(name: &String, location: String) -> (r: MediaLocation)
        ensures
            r.name@ == name@,
            r.location@ == location@,
    {
        MediaLocation { name: name.clone(), location }
    }
}

/// The media indexer's state: its locations, the full-reload countdown, the
/// timing cache, the current status and the signing keys.
pub struct Plugin {
    pub locations: Vec<MediaLocation>,
    /// Minutes between two cycles.
    pub interval: u32,
    pub scheduler: ReloadScheduler,
    pub cache: TimingCache,
    pub status: ScanStatus,
    pub signer: SigningService,
}

impl Plugin {
    pub fn new(
        locations: Vec<MediaLocation>,
        interval: u32,
        full_reload_interval: Option<u32>,
        cache: TimingCache,
        signer: SigningService,
        now: Timestamp,
    ) -> (r: Plugin)
        ensures
            r.locations == locations,
            r.interval == interval,
            r.scheduler.interval == full_reload_interval,
            r.scheduler.remaining == (match full_reload_interval {
                Some(n) => n,
                None => 0,
            }),
            r.cache@ == cache@,
            r.status == ScanStatus::Waiting(now),
            r.signer@ == signer@,
    {
        Plugin {
            locations,
            interval,
            scheduler: ReloadScheduler::new(full_reload_interval),
            cache,
            status: ScanStatus::Waiting(now),
            signer,
        }
    }

    /// Starts a cycle; says whether it rescans every location in full.
    pub fn start_cycle(&mut self) -> (ignore_cache: bool)
        ensures
            final(self).scheduler.interval == old(self).scheduler.interval,
            match old(self).scheduler.interval {
                None => !ignore_cache && final(self).scheduler.remaining == old(self).scheduler.remaining,
                Some(n) => if old(self).scheduler.remaining == 0 {
                    ignore_cache && final(self).scheduler.remaining == n
                } else {
                    !ignore_cache && final(self).scheduler.remaining == old(self).scheduler.remaining - 1
                },
            },
            final(self).cache == old(self).cache,
            final(self).locations == old(self).locations,
            final(self).status == old(self).status,
    {
        self.scheduler.next_cycle()
    }

    /// Marks the location busy and begins its run.
    pub fn start_location(&mut self, index: usize, ignore_cache: bool) -> (r: (LocationRun, Step))
        requires
            index < old(self).locations@.len(),
        ensures
            final(self).status matches ScanStatus::Busy(name) && name@ == old(self).locations@[index as int].name@,
            final(self).cache == old(self).cache,
            final(self).locations == old(self).locations,
            final(self).scheduler == old(self).scheduler,
            r.0.name@ == old(self).locations@[index as int].name@,
            r.0.root@ == old(self).locations@[index as int].location@,
            r.0.consistent(old(self).cache@),
            ({
                let root = old(self).locations@[index as int].location@;
                let cache = old(self).cache@;
                &&& ignore_cache ==> r.0.stage == Stage::Listing && r.0.cutoff == crate::time::epoch_time() && (r.1 matches Step::List(p) && p@ == root)
                &&& !ignore_cache && cache.contains_key(root) ==> r.0.stage == Stage::Listing && r.0.cutoff == cache[root] && (r.1 matches Step::List(p) && p@ == root)
                &&& !ignore_cache && !cache.contains_key(root) ==> r.0.stage == Stage::SavingSentinel && r.0.cutoff == crate::time::epoch_time() && (r.1 matches Step::SaveCache(c) && c@ == cache.insert(root, crate::time::epoch_time()))
            }),
    {
        let location = &self.locations[index];
        self.status = ScanStatus::Busy(location.name.clone());
        LocationRun::start(&location.name, &location.location, ignore_cache, &self.cache)
    }

    /// Hands the reply to the run and returns its next step, as `step_taken`
    /// says.
    pub fn advance_location(&mut self, run: &mut LocationRun, reply: Reply) -> (r: Step)
        requires
            old(run).consistent(old(self).cache@),
            awaits(old(run).stage, reply),
        ensures
            step_taken(*old(run), *final(run), old(self).cache@, final(self).cache@, reply, r),
            final(self).locations == old(self).locations,
            final(self).status == old(self).status,
            final(self).scheduler == old(self).scheduler,
            final(self).signer == old(self).signer,
    {
        run.advance(&mut self.cache, reply)
    }

    /// Ends a cycle: the indexer waits from `now` on.
    pub fn finish_cycle(&mut self, now: Timestamp)
        ensures
            final(self).status == ScanStatus::Waiting(now),
            final(self).cache == old(self).cache,
            final(self).locations == old(self).locations,
            final(self).scheduler == old(self).scheduler,
    {
        self.status = ScanStatus::Waiting(now);
    }

    /// The text of the status query.
    pub fn status_text(&self) -> (r: String)
        ensures
            r@ == status_text_of(self.status),
    {
        self.status.to_text()
    }

    /// The wire form of an indexed medium.
    pub fn signed_media(&self, media: &Media) -> (r: Option<SignedMedia>)
        ensures
            r matches Some(s) ==> s.path@ == media.path@ && signed_by(self.signer@, media.path@, s.signature@),
    {
        SignedMedia::sign(&self.signer, media)
    }

    /// Whether a file request for `path` with `signature` may be served.
    pub fn authorize_file(&self, path: &str, signature: &str) -> (r: bool)
        ensures
            r == signed_by(self.signer@, path@, signature@),
    {
        self.signer.verify_string(path, signature)
    }
}

} // verus!
