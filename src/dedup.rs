use vstd::prelude::*;
use crate::scan::{Media, MediaView, media_views};
use crate::time::Timestamp;

verus! {

pub open spec fn text_views(s: Seq<String>) -> Seq<Seq<char>> {
    s.map_values(|t: String| t@)
}

/// The paths of some media, in order.
pub open spec fn paths_of(s: Seq<MediaView>) -> Seq<Seq<char>> {
    s.map_values(|m: MediaView| m.path)
}

/// The media whose path is not among `known`, in order, each path taken at
/// its first occurrence only: the delta to insert.
pub open spec fn unseen(s: Seq<MediaView>, known: Seq<Seq<char>>) -> Seq<MediaView>
    decreases s.len(),
{
    if s.len() == 0 {
        seq![]
    } else {
        let before = unseen(s.drop_last(), known);
        if known.contains(s.last().path) || paths_of(before).contains(s.last().path) {
            before
        } else {
            before.push(s.last())
        }
    }
}

/// An indexed event: the medium with its path as id and its modification
/// time as the event's instant.
pub struct MediaEvent {
    pub id: String,
    pub timing: Timestamp,
    pub event: Media,
}

/// `batch` holds the events of `media`, in order.
pub open spec fn events_for(batch: Seq<MediaEvent>, media: Seq<MediaView>) -> bool {
    &&& batch.len() == media.len()
    &&& forall|i: int|
        0 <= i < batch.len() ==> {
            &&& #[trigger] batch[i].event@ == media[i]
            &&& batch[i].id@ == media[i].path
            &&& batch[i].timing == media[i].time_modified
        }
}

/// The events of some media, in order.
pub fn events_of(media: &Vec<Media>) -> (r: Vec<MediaEvent>)
    ensures
        events_for(r@, media_views(media@)),
{
    let mut r: Vec<MediaEvent> = Vec::new();
    let mut i: usize = 0;
    while i < media.len()
        invariant
            0 <= i <= media@.len(),
            r@.len() == i,
            forall|k: int|
                0 <= k < i ==> {
                    &&& #[trigger] r@[k].event@ == media@[k]@
                    &&& r@[k].id@ == media@[k].path@
                    &&& r@[k].timing == media@[k].time_modified
                },
        decreases media@.len() - i,
    {
        let m = media[i].duplicate();
        r.push(MediaEvent { id: m.path.clone(), timing: m.time_modified, event: m });
        i = i + 1;
    }
    r
}

/// The paths of the candidates, for one batched lookup in the event store.
pub fn candidate_paths(media: &Vec<Media>) -> (r: Vec<String>)
    ensures
        text_views(r@) == paths_of(media_views(media@)),
{
    let mut r: Vec<String> = Vec::new();
    let mut i: usize = 0;
    while i < media.len()
        invariant
            0 <= i <= media@.len(),
            text_views(r@) == paths_of(media_views(media@.take(i as int))),
        decreases media@.len() - i,
    {
        let ghost r0 = r@;
        r.push(media[i].path.clone());
        proof {
            assert(media@.take(i + 1) =~= media@.take(i as int).push(media@[i as int]));
            assert(text_views(r@) =~= text_views(r0).push(media@[i as int].path@));
            assert(paths_of(media_views(media@.take(i + 1))) =~= paths_of(
                media_views(media@.take(i as int)),
            ).push(media@[i as int].path@));
        }
        assert(text_views(r@) =~= paths_of(media_views(media@.take(i + 1))));
        i = i + 1;
    }
    assert(media@.take(media@.len() as int) =~= media@);
    r
}

fn is_known(path: &String, known: &Vec<String>) -> (r: bool)
    ensures
        r == text_views(known@).contains(path@),
{
    let mut j: usize = 0;
    while j < known.len()
        invariant
            0 <= j <= known@.len(),
            forall|k: int| 0 <= k < j ==> known@[k]@ != path@,
        decreases known@.len() - j,
    {
        if known[j] == *path {
            assert(text_views(known@)[j as int] == path@);
            return true;
        }
        j = j + 1;
    }
    assert(!text_views(known@).contains(path@)) by {
        if text_views(known@).contains(path@) {
            let k = choose|k: int| 0 <= k < text_views(known@).len() && text_views(known@)[k] == path@;
            assert(known@[k]@ == path@);
        }
    }
    false
}

/// Removes from the candidates every medium whose path the store already
/// holds, and every repeat of a path, keeping the order of the rest.
pub fn unseen_media(candidates: &Vec<Media>, known: &Vec<String>) -> (r: Vec<Media>)
    ensures
        media_views(r@) == unseen(media_views(candidates@), text_views(known@)),
        paths_of(media_views(r@)).no_duplicates(),
{
    let ghost all = media_views(candidates@);
    let mut r: Vec<Media> = Vec::new();
    let mut kept: Vec<String> = Vec::new();
    let mut i: usize = 0;
    assert(text_views(kept@) =~= paths_of(media_views(r@)));
    while i < candidates.len()
        invariant
            all == media_views(candidates@),
            0 <= i <= all.len(),
            media_views(r@) == unseen(all.take(i as int), text_views(known@)),
            text_views(kept@) == paths_of(media_views(r@)),
        decreases all.len() - i,
    {
        proof {
            assert(all.take(i + 1).drop_last() =~= all.take(i as int));
            assert(all.take(i + 1).last() == all[i as int]);
        }
        if !is_known(&candidates[i].path, known) && !is_known(&candidates[i].path, &kept) {
            let ghost r0 = r@;
            let ghost k0 = kept@;
            r.push(candidates[i].duplicate());
            kept.push(candidates[i].path.clone());
            assert(media_views(r@) =~= media_views(r0).push(all[i as int]));
            assert(text_views(kept@) =~= text_views(k0).push(all[i as int].path));
            assert(paths_of(media_views(r@)) =~= paths_of(media_views(r0)).push(all[i as int].path));
        }
        assert(media_views(r@) =~= unseen(all.take(i + 1), text_views(known@)));
        i = i + 1;
    }
    assert(all.take(all.len() as int) =~= all);
    proof {
        lemma_unseen_distinct(all, text_views(known@));
    }
    r
}

/// No path occurs twice in a delta.
pub proof fn lemma_unseen_distinct(s: Seq<MediaView>, known: Seq<Seq<char>>)
    ensures
        paths_of(unseen(s, known)).no_duplicates(),
    decreases s.len(),
{
    if s.len() > 0 {
        lemma_unseen_distinct(s.drop_last(), known);
        let before = unseen(s.drop_last(), known);
        if !(known.contains(s.last().path) || paths_of(before).contains(s.last().path)) {
            let p = paths_of(before.push(s.last()));
            assert(p =~= paths_of(before).push(s.last().path));
            assert forall|a: int, b: int| 0 <= a < p.len() && 0 <= b < p.len() && a != b implies p[a] != p[b] by {
                if a == p.len() - 1 {
                    assert(paths_of(before)[b] == p[b]);
                } else if b == p.len() - 1 {
                    assert(paths_of(before)[a] == p[a]);
                }
            }
        }
    }
}

proof fn lemma_unseen_empty(s: Seq<MediaView>, known: Seq<Seq<char>>)
    requires
        forall|k: int| 0 <= k < s.len() ==> known.contains(#[trigger] s[k].path),
    ensures
        unseen(s, known) == Seq::<MediaView>::empty(),
    decreases s.len(),
{
    if s.len() > 0 {
        lemma_unseen_empty(s.drop_last(), known);
        assert(known.contains(s[s.len() - 1].path));
    }
}

proof fn lemma_unseen_paths(s: Seq<MediaView>, known: Seq<Seq<char>>, m: MediaView)
    requires
        s.contains(m),
        !known.contains(m.path),
    ensures
        paths_of(unseen(s, known)).contains(m.path),
    decreases s.len(),
{
    let before = unseen(s.drop_last(), known);
    let u = unseen(s, known);
    if s.last() == m {
        if !paths_of(before).contains(m.path) {
            assert(u == before.push(m));
            assert(paths_of(u)[u.len() - 1] == m.path);
        }
    } else {
        let k = choose|k: int| 0 <= k < s.len() && s[k] == m;
        assert(s.drop_last()[k] == m);
        lemma_unseen_paths(s.drop_last(), known, m);
        let p = paths_of(before);
        let j = choose|j: int| 0 <= j < p.len() && p[j] == m.path;
        if u != before {
            assert(paths_of(u)[j] == m.path);
        }
    }
}

/// Once the delta of a set of candidates has been added to the store, the
/// same candidates yield an empty delta.
pub proof fn lemma_second_pass_inserts_nothing(s: Seq<MediaView>, known: Seq<Seq<char>>)
    ensures
        unseen(s, known + paths_of(unseen(s, known))) == Seq::<MediaView>::empty(),
{
    let all = known + paths_of(unseen(s, known));
    assert forall|k: int| 0 <= k < s.len() implies all.contains(#[trigger] s[k].path) by {
        if known.contains(s[k].path) {
            let j = choose|j: int| 0 <= j < known.len() && known[j] == s[k].path;
            assert(all[j] == s[k].path);
        } else {
            assert(s.contains(s[k]));
            lemma_unseen_paths(s, known, s[k]);
            let p = paths_of(unseen(s, known));
            let j = choose|j: int| 0 <= j < p.len() && p[j] == s[k].path;
            assert(all[known.len() + j] == s[k].path);
        }
    }
    lemma_unseen_empty(s, all);
}

} // verus!
