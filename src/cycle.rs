use vstd::prelude::*;
use crate::cache::TimingCache;
use crate::dedup::{
    MediaEvent, candidate_paths, events_for, events_of, paths_of, text_views, unseen, unseen_media,
};
use crate::scan::{
    DirTree, Media, MediaView, Skipped, media_views, recursive_directory_scan, tree_media,
    tree_newest,
};
use crate::time::{Timestamp, epoch_time};

verus! {

/// How the processing of one location ended.
#[derive(Clone, Copy, Debug, PartialEq, Eq, Structural)]
pub enum LocationOutcome {
    /// The delta is in the store and the advanced cutoff is saved.
    Indexed,
    /// The cache could not be saved; the cutoff is where it was.
    CacheFailed,
    /// The location's directory could not be listed.
    ScanFailed,
    /// The store could not say which media it already holds.
    QueryFailed,
    /// The store holds every medium found; nothing is inserted and the
    /// cutoff stays where it was.
    NothingNew,
    /// The store refused the delta; the same window is scanned next cycle.
    InsertFailed,
}

/// The next piece of outside work for one location.
pub enum Step {
    /// Persist this copy of the timing cache; answer `CacheSaved`.
    SaveCache(TimingCache),
    /// List the directory tree under the root; answer `Listed`.
    List(String),
    /// Ask the store which of these paths it holds; answer `Existing`.
    FindExisting(Vec<String>),
    /// Insert these events into the store in one batch; answer `Inserted`.
    Insert(Vec<MediaEvent>),
    Done(LocationOutcome),
}

/// The result of the outside work that a `Step` asked for.
pub enum Reply {
    CacheSaved(bool),
    Listed(Option<DirTree>),
    Existing(Option<Vec<String>>),
    Inserted(bool),
}

#[derive(Clone, Copy, Debug, PartialEq, Eq, Structural)]
pub enum Stage {
    SavingSentinel,
    Listing,
    Querying,
    Inserting,
    SavingCutoff,
}

/// One location's pass through scan, dedup, insert and cutoff advance.
pub struct LocationRun {
    pub name: String,
    pub root: String,
    pub stage: Stage,
    /// Files modified strictly after this instant are scanned.
    pub cutoff: Timestamp,
    /// The latest time the scan saw, once listed.
    pub newest: Timestamp,
    /// The media the scan found, once listed.
    pub candidates: Vec<Media>,
    /// The files the scan passed over with a diagnostic, once listed.
    pub skipped: Vec<Skipped>,
    /// The copy of the cache being persisted.
    pub pending: TimingCache,
}

/// The cutoff recorded for `root` once a scan that saw `newest` is committed:
/// never earlier than what was there.
pub open spec fn advanced_cutoff(
    cache: Map<Seq<char>, Timestamp>,
    root: Seq<char>,
    newest: Timestamp,
) -> Timestamp {
    if cache.contains_key(root) {
        cache[root].latest(newest)
    } else {
        newest
    }
}

/// No recorded cutoff goes away or moves back.
pub open spec fn cutoffs_kept(before: Map<Seq<char>, Timestamp>, after: Map<Seq<char>, Timestamp>) -> bool {
    forall|k: Seq<char>|
        #[trigger] before.contains_key(k) ==> after.contains_key(k) && after[k].not_before(before[k])
}

/// The reply that the run's stage waits for.
pub open spec fn awaits(stage: Stage, reply: Reply) -> bool {
    match stage {
        Stage::SavingSentinel | Stage::SavingCutoff => reply is CacheSaved,
        Stage::Listing => reply is Listed,
        Stage::Querying => reply is Existing,
        Stage::Inserting => reply is Inserted,
    }
}

/// What one step of a run does, from the run and cache before it and the
/// reply, to the run and cache after it and the next step. The cache changes
/// only when a save is confirmed, and then to the copy that was saved; no
/// recorded cutoff ever moves back; the cutoff advances only after the store
/// took the delta.
pub open spec fn step_taken(
    before: LocationRun,
    after: LocationRun,
    cache_before: Map<Seq<char>, Timestamp>,
    cache_after: Map<Seq<char>, Timestamp>,
    reply: Reply,
    r: Step,
) -> bool {
    &&& after.name == before.name
    &&& after.root == before.root
    &&& after.cutoff == before.cutoff
    &&& !(r is Done) ==> after.consistent(cache_after)
    &&& cutoffs_kept(cache_before, cache_after)
    &&& (reply matches Reply::CacheSaved(ok) && ok) ==> cache_after == before.pending@
    &&& !(reply matches Reply::CacheSaved(ok) && ok) ==> cache_after == cache_before
    &&& before.stage == Stage::SavingSentinel ==> (reply matches Reply::CacheSaved(ok) && if ok {
        after.stage == Stage::Listing && (r matches Step::List(p) && p@ == before.root@)
    } else {
        r == Step::Done(LocationOutcome::CacheFailed)
    })
    &&& before.stage == Stage::Listing ==> (reply matches Reply::Listed(listed) && match listed {
        Some(tree) => {
            &&& after.stage == Stage::Querying
            &&& media_views(after.candidates@) == tree_media(tree, before.name@, before.cutoff)
            &&& after.newest == tree_newest(tree, before.cutoff)
            &&& r matches Step::FindExisting(paths) && text_views(paths@) == paths_of(
                media_views(after.candidates@),
            )
        },
        None => r == Step::Done(LocationOutcome::ScanFailed),
    })
    &&& before.stage == Stage::Querying ==> (reply matches Reply::Existing(found) && match found {
        Some(known) => {
            let delta = unseen(media_views(before.candidates@), text_views(known@));
            &&& delta.len() == 0 ==> r == Step::Done(LocationOutcome::NothingNew)
            &&& delta.len() > 0 ==> {
                &&& after.stage == Stage::Inserting
                &&& after.newest == before.newest
                &&& r matches Step::Insert(batch) && events_for(batch@, delta)
            }
        },
        None => r == Step::Done(LocationOutcome::QueryFailed),
    })
    &&& before.stage == Stage::Inserting ==> (reply matches Reply::Inserted(ok) && if ok {
        &&& after.stage == Stage::SavingCutoff
        &&& after.newest == before.newest
        &&& r matches Step::SaveCache(c) && c@ == after.pending@
    } else {
        r == Step::Done(LocationOutcome::InsertFailed)
    })
    &&& before.stage == Stage::SavingCutoff ==> (reply matches Reply::CacheSaved(ok) && r
        == Step::Done(
        if ok {
            LocationOutcome::Indexed
        } else {
            LocationOutcome::CacheFailed
        },
    ))
}

impl LocationRun {
    /// The copy being persisted is the live cache with this run's change.
    pub open spec fn consistent(&self, cache: Map<Seq<char>, Timestamp>) -> bool {
        &&& self.stage == Stage::SavingSentinel ==> {
            &&& !cache.contains_key(self.root@)
            &&& self.pending@ == cache.insert(self.root@, epoch_time())
        }
        &&& self.stage == Stage::SavingCutoff ==> self.pending@ == cache.insert(
            self.root@,
            advanced_cutoff(cache, self.root@, self.newest),
        )
    }

    /// Begins a location. A full reload scans from the epoch; otherwise the
    /// recorded cutoff is used, and a root seen for the first time first gets
    /// the epoch recorded and saved.
    pub fn start(name: &String, root: &String, full_reload: bool, cache: &TimingCache) -> (r: (
        LocationRun,
        Step,
    ))
        ensures
            r.0.name@ == name@,
            r.0.root@ == root@,
            r.0.consistent(cache@),
            full_reload ==> r.0.stage == Stage::Listing && r.0.cutoff == epoch_time() && (r.1 matches Step::List(p) && p@ == root@),
            !full_reload && cache@.contains_key(root@) ==> r.0.stage == Stage::Listing && r.0.cutoff == cache@[root@] && (r.1 matches Step::List(p) && p@ == root@),
            !full_reload && !cache@.contains_key(root@) ==> r.0.stage == Stage::SavingSentinel && r.0.cutoff == epoch_time() && (r.1 matches Step::SaveCache(c) && c@ == cache@.insert(root@, epoch_time())),
    {
        let cached = cache.get(root);
        let epoch = Timestamp::epoch();
        let (stage, cutoff, pending) = if full_reload {
            (Stage::Listing, epoch, TimingCache::new())
        } else {
            match cached {
                Some(c) => (Stage::Listing, c, TimingCache::new()),
                None => (Stage::SavingSentinel, epoch, cache.with_cutoff(root, epoch)),
            }
        };
        let step = if stage == Stage::Listing {
            Step::List(root.clone())
        } else {
            Step::SaveCache(pending.duplicate())
        };
        let run = LocationRun {
            name: name.clone(),
            root: root.clone(),
            stage,
            cutoff,
            newest: cutoff,
            candidates: Vec::new(),
            skipped: Vec::new(),
            pending,
        };
        (run, step)
    }

    fn save_advanced(&mut self, cache: &TimingCache) -> (r: Step)
        ensures
            final(self).name == old(self).name,
            final(self).root == old(self).root,
            final(self).cutoff == old(self).cutoff,
            final(self).newest == old(self).newest,
            final(self).candidates == old(self).candidates,
            final(self).skipped == old(self).skipped,
            final(self).stage == Stage::SavingCutoff,
            final(self).consistent(cache@),
            r matches Step::SaveCache(c) && c@ == final(self).pending@,
    {
        let next = match cache.get(&self.root) {
            Some(c) => c.later_of(&self.newest),
            None => self.newest,
        };
        self.pending = cache.with_cutoff(&self.root, next);
        self.stage = Stage::SavingCutoff;
        Step::SaveCache(self.pending.duplicate())
    }

    /// Takes the reply to the last step and returns the next one, as
    /// `step_taken` says.
    pub fn advance(&mut self, cache: &mut TimingCache, reply: Reply) -> (r: Step)
        requires
            old(self).consistent(old(cache)@),
            awaits(old(self).stage, reply),
        ensures
            step_taken(*old(self), *final(self), old(cache)@, final(cache)@, reply, r),
    {
        match reply {
            Reply::CacheSaved(ok) => {
                if !ok {
                    return Step::Done(LocationOutcome::CacheFailed);
                }
                *cache = self.pending.duplicate();
                if self.stage == Stage::SavingSentinel {
                    self.stage = Stage::Listing;
                    Step::List(self.root.clone())
                } else {
                    Step::Done(LocationOutcome::Indexed)
                }
            },
            Reply::Listed(listed) => match listed {
                Some(tree) => {
                    let outcome = recursive_directory_scan(self.name.as_str(), &tree, &self.cutoff);
                    self.newest = outcome.newest;
                    self.candidates = outcome.media;
                    self.skipped = outcome.skipped;
                    self.stage = Stage::Querying;
                    Step::FindExisting(candidate_paths(&self.candidates))
                },
                None => Step::Done(LocationOutcome::ScanFailed),
            },
            Reply::Existing(found) => match found {
                Some(known) => {
                    let delta = unseen_media(&self.candidates, &known);
                    if delta.len() == 0 {
                        Step::Done(LocationOutcome::NothingNew)
                    } else {
                        self.stage = Stage::Inserting;
                        Step::Insert(events_of(&delta))
                    }
                },
                None => Step::Done(LocationOutcome::QueryFailed),
            },
            Reply::Inserted(ok) => {
                if ok {
                    self.save_advanced(cache)
                } else {
                    Step::Done(LocationOutcome::InsertFailed)
                }
            },
        }
    }
}

/// Cutoffs kept from one cache to a second and from the second to a third
/// are kept from the first to the third: over any number of cycles, forced
/// full reloads included, no location's cutoff moves back.
pub proof fn lemma_cutoffs_kept_across(
    a: Map<Seq<char>, Timestamp>,
    b: Map<Seq<char>, Timestamp>,
    c: Map<Seq<char>, Timestamp>,
)
    requires
        cutoffs_kept(a, b),
        cutoffs_kept(b, c),
    ensures
        cutoffs_kept(a, c),
{
    assert forall|k: Seq<char>| #[trigger] a.contains_key(k) implies c.contains_key(k) && c[k].not_before(
        a[k],
    ) by {
        assert(b.contains_key(k));
    }
}

/// The committed cutoff is no earlier than the newest time the scan saw, nor
/// than the cutoff recorded before, even when the scan started from the epoch.
pub proof fn lemma_advanced_cutoff_bounds(
    cache: Map<Seq<char>, Timestamp>,
    root: Seq<char>,
    newest: Timestamp,
)
    ensures
        advanced_cutoff(cache, root, newest).not_before(newest),
        cache.contains_key(root) ==> advanced_cutoff(cache, root, newest).not_before(cache[root]),
        cutoffs_kept(cache, cache.insert(root, advanced_cutoff(cache, root, newest))),
{
}

/// Two full scans of an unchanged tree: once the first delta is in the store,
/// the second finds nothing to insert.
pub proof fn lemma_rescan_inserts_nothing(tree: DirTree, name: Seq<char>, known: Seq<Seq<char>>)
    ensures
        ({
            let found = tree_media(tree, name, epoch_time());
            unseen(found, known + paths_of(unseen(found, known))) == Seq::<MediaView>::empty()
        }),
{
    crate::dedup::lemma_second_pass_inserts_nothing(tree_media(tree, name, epoch_time()), known);
}

} // verus!
