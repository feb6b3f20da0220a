use vstd::prelude::*;
use crate::time::Timestamp;

verus! {

/// What `str::to_lowercase` makes of a text.
pub uninterp spec fn lower_of(s: Seq<char>) -> Seq<char>;

/// Relies on `str::to_lowercase`: the result depends on the characters alone.
#[verifier::external_body]
fn lowercase(s: &str) -> (r: String)
    ensures
        r@ == lower_of(s@),
{
    s.to_lowercase()
}

/// The extensions, in lower case, of the image, video and audio files indexed.
pub open spec fn is_media_extension(e: Seq<char>) -> bool {
    ||| e == "png"@
    ||| e == "jpg"@
    ||| e == "jpeg"@
    ||| e == "gif"@
    ||| e == "heic"@
    ||| e == "mp4"@
    ||| e == "mkv"@
    ||| e == "webm"@
    ||| e == "mov"@
    ||| e == "mp3"@
    ||| e == "opus"@
    ||| e == "m4a"@
}

fn same_text(a: &str, b: &str) -> (r: bool)
    ensures
        r == (a@ == b@),
{
    a.to_owned() == b.to_owned()
}

/// Whether an extension already in lower case is one of the indexed ones.
pub fn is_listed_extension(e: &str) -> (r: bool)
    ensures
        r == is_media_extension(e@),
{
    same_text(e, "png") || same_text(e, "jpg") || same_text(e, "jpeg") || same_text(e, "gif")
        || same_text(e, "heic") || same_text(e, "mp4") || same_text(e, "mkv") || same_text(
        e,
        "webm",
    ) || same_text(e, "mov") || same_text(e, "mp3") || same_text(e, "opus") || same_text(
        e,
        "m4a",
    )
}

/// Whether a file extension is indexed, compared without regard to case.
pub fn is_supported_extension(ext: &str) -> (r: bool)
    ensures
        r == is_media_extension(lower_of(ext@)),
{
    let lowered = lowercase(ext);
    is_listed_extension(lowered.as_str())
}

/// How a client shows a medium.
#[derive(Clone, Copy, Debug, PartialEq, Eq, Structural)]
pub enum MediaKind {
    Video,
    Audio,
    Image,
}

/// The kind of medium for an extension in lower case: video and audio
/// extensions by name, an image for anything else.
pub open spec fn kind_of(e: Seq<char>) -> MediaKind {
    if e == "mp4"@ || e == "mkv"@ || e == "webm"@ || e == "mov"@ {
        MediaKind::Video
    } else if e == "mp3"@ || e == "opus"@ || e == "m4a"@ {
        MediaKind::Audio
    } else {
        MediaKind::Image
    }
}

/// The kind of medium for an extension already in lower case.
pub fn listed_kind(e: &str) -> (r: MediaKind)
    ensures
        r == kind_of(e@),
{
    if same_text(e, "mp4") || same_text(e, "mkv") || same_text(e, "webm") || same_text(e, "mov") {
        MediaKind::Video
    } else if same_text(e, "mp3") || same_text(e, "opus") || same_text(e, "m4a") {
        MediaKind::Audio
    } else {
        MediaKind::Image
    }
}

/// The kind of medium for a file extension, compared without regard to case.
pub fn media_kind(ext: &str) -> (r: MediaKind)
    ensures
        r == kind_of(lower_of(ext@)),
{
    let lowered = lowercase(ext);
    listed_kind(lowered.as_str())
}

/// The extension of a file as read from its name.
pub enum Extension {
    /// The name has no extension.
    Missing,
    /// The extension is not valid text.
    Undecodable,
    Text(String),
}

/// A regular file met during a scan.
pub struct FileEntry {
    /// The path, written lossily where it is not valid text.
    pub path: String,
    /// Whether the path is valid text; only such files are indexed.
    pub path_is_text: bool,
    pub extension: Extension,
    /// The modification time, or `None` where the metadata could not be read.
    pub modified: Option<Timestamp>,
}

/// One entry of a directory listing. Symbolic links and special files are
/// `Other` and never followed, so a scan always ends.
pub enum DirEntry {
    File(FileEntry),
    Dir(DirTree),
    Other,
}

/// The entries of a directory, as listed.
pub struct DirTree {
    pub entries: Vec<DirEntry>,
}

/// One discovered media file.
pub struct Media {
    pub path: String,
    pub time_modified: Timestamp,
    pub location_name: String,
}

impl Media {
    pub fn duplicate(&self) -> (r: Media)
        ensures
            r@ == self@,
    {
        Media {
            path: self.path.clone(),
            time_modified: self.time_modified,
            location_name: self.location_name.clone(),
        }
    }
}

pub struct MediaView {
    pub path: Seq<char>,
    pub time_modified: Timestamp,
    pub location_name: Seq<char>,
}

impl View for Media {
    type V = MediaView;

    open spec fn view(&self) -> MediaView {
        MediaView {
            path: self.path@,
            time_modified: self.time_modified,
            location_name: self.location_name@,
        }
    }
}

pub open spec fn media_views(s: Seq<Media>) -> Seq<MediaView> {
    s.map_values(|m: Media| m@)
}

/// Why a file was passed over with a diagnostic.
#[derive(Clone, Copy, Debug, PartialEq, Eq, Structural)]
pub enum SkipReason {
    UndecodableExtension,
    UnreadableMetadata,
    UndecodablePath,
}

pub struct Skipped {
    pub path: String,
    pub reason: SkipReason,
}

pub struct SkippedView {
    pub path: Seq<char>,
    pub reason: SkipReason,
}

impl View for Skipped {
    type V = SkippedView;

    open spec fn view(&self) -> SkippedView {
        SkippedView { path: self.path@, reason: self.reason }
    }
}

pub open spec fn skipped_views(s: Seq<Skipped>) -> Seq<SkippedView> {
    s.map_values(|k: Skipped| k@)
}

/// What a scan returns: the media found, the newest time seen, and the files
/// passed over with a diagnostic.
pub struct ScanOutcome {
    pub media: Vec<Media>,
    pub newest: Timestamp,
    pub skipped: Vec<Skipped>,
}

/// The file's extension is a supported one and its modification time is
/// known and strictly later than the cutoff.
pub open spec fn file_in_window(f: FileEntry, cutoff: Timestamp) -> bool {
    &&& f.extension matches Extension::Text(e)
    &&& is_media_extension(lower_of(e@))
    &&& f.modified matches Some(t)
    &&& t.after(cutoff)
}

/// The file is indexed: it is in the window and its path is text.
pub open spec fn file_is_new(f: FileEntry, cutoff: Timestamp) -> bool {
    file_in_window(f, cutoff) && f.path_is_text
}

pub open spec fn file_media(f: FileEntry, name: Seq<char>, cutoff: Timestamp) -> Seq<MediaView> {
    if file_is_new(f, cutoff) {
        seq![MediaView { path: f.path@, time_modified: f.modified->Some_0, location_name: name }]
    } else {
        seq![]
    }
}

pub open spec fn file_skips(f: FileEntry, cutoff: Timestamp) -> Seq<SkippedView> {
    match f.extension {
        Extension::Undecodable => seq![
            SkippedView { path: f.path@, reason: SkipReason::UndecodableExtension },
        ],
        Extension::Text(e) => if is_media_extension(lower_of(e@)) && f.modified is None {
            seq![SkippedView { path: f.path@, reason: SkipReason::UnreadableMetadata }]
        } else if file_in_window(f, cutoff) && !f.path_is_text {
            seq![SkippedView { path: f.path@, reason: SkipReason::UndecodablePath }]
        } else {
            seq![]
        },
        Extension::Missing => seq![],
    }
}

/// The media found in the first `n` entries and, recursively, below them, in
/// listing order.
pub open spec fn found_media(
    entries: Seq<DirEntry>,
    n: int,
    name: Seq<char>,
    cutoff: Timestamp,
) -> Seq<MediaView>
    decreases entries, n,
{
    if n <= 0 || n > entries.len() {
        seq![]
    } else {
        let before = found_media(entries, n - 1, name, cutoff);
        match entries[n - 1] {
            DirEntry::File(f) => before + file_media(f, name, cutoff),
            DirEntry::Dir(t) => before + found_media(t.entries@, t.entries@.len() as int, name, cutoff),
            DirEntry::Other => before,
        }
    }
}

/// The files passed over with a diagnostic in the first `n` entries and below.
pub open spec fn found_skips(entries: Seq<DirEntry>, n: int, cutoff: Timestamp) -> Seq<SkippedView>
    decreases entries, n,
{
    if n <= 0 || n > entries.len() {
        seq![]
    } else {
        let before = found_skips(entries, n - 1, cutoff);
        match entries[n - 1] {
            DirEntry::File(f) => before + file_skips(f, cutoff),
            DirEntry::Dir(t) => before + found_skips(t.entries@, t.entries@.len() as int, cutoff),
            DirEntry::Other => before,
        }
    }
}

/// The latest of `cutoff` and the times of the media found in the first `n`
/// entries and below.
pub open spec fn newest_found(entries: Seq<DirEntry>, n: int, cutoff: Timestamp) -> Timestamp
    decreases entries, n,
{
    if n <= 0 || n > entries.len() {
        cutoff
    } else {
        let before = newest_found(entries, n - 1, cutoff);
        match entries[n - 1] {
            DirEntry::File(f) => if file_is_new(f, cutoff) {
                before.latest(f.modified->Some_0)
            } else {
                before
            },
            DirEntry::Dir(t) => before.latest(
                newest_found(t.entries@, t.entries@.len() as int, cutoff),
            ),
            DirEntry::Other => before,
        }
    }
}

pub open spec fn tree_media(tree: DirTree, name: Seq<char>, cutoff: Timestamp) -> Seq<MediaView> {
    found_media(tree.entries@, tree.entries@.len() as int, name, cutoff)
}

pub open spec fn tree_skips(tree: DirTree, cutoff: Timestamp) -> Seq<SkippedView> {
    found_skips(tree.entries@, tree.entries@.len() as int, cutoff)
}

pub open spec fn tree_newest(tree: DirTree, cutoff: Timestamp) -> Timestamp {
    newest_found(tree.entries@, tree.entries@.len() as int, cutoff)
}

/// Scans one file against the cutoff, adding it to `media` or to `skipped`.
fn scan_file(
    location_name: &str,
    f: &FileEntry,
    cutoff: &Timestamp,
    media: &mut Vec<Media>,
    newest: &mut Timestamp,
    skipped: &mut Vec<Skipped>,
)
    ensures
        media_views(final(media)@) == media_views(old(media)@) + file_media(*f, location_name@, *cutoff),
        skipped_views(final(skipped)@) == skipped_views(old(skipped)@) + file_skips(*f, *cutoff),
        *final(newest) == (if file_is_new(*f, *cutoff) {
            old(newest).latest(f.modified->Some_0)
        } else {
            *old(newest)
        }),
{
    let ghost m0 = media@;
    let ghost s0 = skipped@;
    match &f.extension {
        Extension::Missing => {},
        Extension::Undecodable => {
            skipped.push(Skipped { path: f.path.clone(), reason: SkipReason::UndecodableExtension });
            assert(skipped_views(skipped@) =~= skipped_views(s0) + file_skips(*f, *cutoff));
        },
        Extension::Text(e) => {
            if is_supported_extension(e.as_str()) {
                match f.modified {
                    None => {
                        skipped.push(
                            Skipped { path: f.path.clone(), reason: SkipReason::UnreadableMetadata },
                        );
                        assert(skipped_views(skipped@) =~= skipped_views(s0) + file_skips(*f, *cutoff));
                    },
                    Some(t) => {
                        if t.is_after(cutoff) && !f.path_is_text {
                            skipped.push(
                                Skipped { path: f.path.clone(), reason: SkipReason::UndecodablePath },
                            );
                            assert(skipped_views(skipped@) =~= skipped_views(s0) + file_skips(
                                *f,
                                *cutoff,
                            ));
                        } else if t.is_after(cutoff) {
                            media.push(
                                Media {
                                    path: f.path.clone(),
                                    time_modified: t,
                                    location_name: location_name.to_owned(),
                                },
                            );
                            *newest = newest.later_of(&t);
                            assert(media_views(media@) =~= media_views(m0) + file_media(
                                *f,
                                location_name@,
                                *cutoff,
                            ));
                        }
                    },
                }
            }
        },
    }
    assert(media_views(media@) =~= media_views(m0) + file_media(*f, location_name@, *cutoff));
    assert(skipped_views(skipped@) =~= skipped_views(s0) + file_skips(*f, *cutoff));
}

proof fn lemma_views_append(a: Seq<Media>, b: Seq<Media>, c: Seq<Skipped>, d: Seq<Skipped>)
    ensures
        media_views(a + b) =~= media_views(a) + media_views(b),
        skipped_views(c + d) =~= skipped_views(c) + skipped_views(d),
{
}

/// Walks a listed directory tree and returns the media of the location whose
/// modification time is strictly later than `current_newest`, with the latest
/// of `current_newest` and their times.
pub fn recursive_directory_scan(location_name: &str, tree: &DirTree, current_newest: &Timestamp) -> (r: ScanOutcome)
    ensures
        media_views(r.media@) == tree_media(*tree, location_name@, *current_newest),
        r.newest == tree_newest(*tree, *current_newest),
        skipped_views(r.skipped@) == tree_skips(*tree, *current_newest),
    decreases tree,
{
    let mut media: Vec<Media> = Vec::new();
    let mut newest = *current_newest;
    let mut skipped: Vec<Skipped> = Vec::new();
    let ghost entries = tree.entries@;
    let mut i: usize = 0;
    assert(media_views(media@) =~= seq![]);
    assert(skipped_views(skipped@) =~= seq![]);
    while i < tree.entries.len()
        invariant
            entries == tree.entries@,
            0 <= i <= entries.len(),
            media_views(media@) == found_media(entries, i as int, location_name@, *current_newest),
            skipped_views(skipped@) == found_skips(entries, i as int, *current_newest),
            newest == newest_found(entries, i as int, *current_newest),
        decreases entries.len() - i,
    {
        match &tree.entries[i] {
            DirEntry::File(f) => {
                scan_file(location_name, f, current_newest, &mut media, &mut newest, &mut skipped);
            },
            DirEntry::Dir(sub) => {
                assert(decreases_to!(tree => tree.entries@[i as int]));
                let mut inner = recursive_directory_scan(location_name, sub, current_newest);
                proof {
                    lemma_views_append(media@, inner.media@, skipped@, inner.skipped@);
                }
                media.append(&mut inner.media);
                skipped.append(&mut inner.skipped);
                newest = newest.later_of(&inner.newest);
            },
            DirEntry::Other => {},
        }
        i = i + 1;
    }
    ScanOutcome { media, newest, skipped }
}

/// No file in the first `n` entries or below has a known modification time
/// later than `c`.
pub open spec fn none_after(entries: Seq<DirEntry>, n: int, c: Timestamp) -> bool
    decreases entries, n,
{
    if n <= 0 || n > entries.len() {
        true
    } else {
        &&& none_after(entries, n - 1, c)
        &&& match entries[n - 1] {
            DirEntry::File(f) => !(f.modified matches Some(t) && t.after(c)),
            DirEntry::Dir(t) => none_after(t.entries@, t.entries@.len() as int, c),
            DirEntry::Other => true,
        }
    }
}

pub open spec fn tree_none_after(tree: DirTree, c: Timestamp) -> bool {
    none_after(tree.entries@, tree.entries@.len() as int, c)
}

proof fn lemma_none_after_found(entries: Seq<DirEntry>, n: int, name: Seq<char>, c: Timestamp)
    requires
        none_after(entries, n, c),
    ensures
        found_media(entries, n, name, c) == Seq::<MediaView>::empty(),
        newest_found(entries, n, c) == c,
    decreases entries, n,
{
    if n <= 0 || n > entries.len() {
    } else {
        lemma_none_after_found(entries, n - 1, name, c);
        match entries[n - 1] {
            DirEntry::File(f) => {
                assert(file_media(f, name, c) =~= seq![]);
                assert(found_media(entries, n, name, c) =~= seq![]);
            },
            DirEntry::Dir(t) => {
                lemma_none_after_found(t.entries@, t.entries@.len() as int, name, c);
                assert(found_media(entries, n, name, c) =~= seq![]);
            },
            DirEntry::Other => {},
        }
    }
}

/// Scanning a tree in which no file is newer than the cutoff finds no media
/// and returns the cutoff unchanged.
pub proof fn lemma_scan_at_cutoff(tree: DirTree, name: Seq<char>, cutoff: Timestamp)
    requires
        tree_none_after(tree, cutoff),
    ensures
        tree_media(tree, name, cutoff) == Seq::<MediaView>::empty(),
        tree_newest(tree, cutoff) == cutoff,
{
    lemma_none_after_found(tree.entries@, tree.entries@.len() as int, name, cutoff);
}

/// `t` is `cutoff` or the time of one of the media.
pub open spec fn attained(t: Timestamp, cutoff: Timestamp, found: Seq<MediaView>) -> bool {
    t == cutoff || exists|i: int| 0 <= i < found.len() && #[trigger] found[i].time_modified == t
}

/// `t` is no earlier than `cutoff` nor than the time of any of the media.
pub open spec fn bounds_all(t: Timestamp, cutoff: Timestamp, found: Seq<MediaView>) -> bool {
    &&& t.not_before(cutoff)
    &&& forall|i: int| 0 <= i < found.len() ==> t.not_before(#[trigger] found[i].time_modified)
}

proof fn lemma_newest_found_is_max(entries: Seq<DirEntry>, n: int, name: Seq<char>, c: Timestamp)
    ensures
        bounds_all(newest_found(entries, n, c), c, found_media(entries, n, name, c)),
        attained(newest_found(entries, n, c), c, found_media(entries, n, name, c)),
    decreases entries, n,
{
    if n <= 0 || n > entries.len() {
    } else {
        lemma_newest_found_is_max(entries, n - 1, name, c);
        let before = found_media(entries, n - 1, name, c);
        let b = newest_found(entries, n - 1, c);
        let all = found_media(entries, n, name, c);
        let t = newest_found(entries, n, c);
        match entries[n - 1] {
            DirEntry::File(f) => {
                let extra = file_media(f, name, c);
                assert(all == before + extra);
                assert forall|i: int| 0 <= i < all.len() implies t.not_before(
                    #[trigger] all[i].time_modified,
                ) by {
                    if i < before.len() {
                        assert(all[i] == before[i]);
                    }
                }
                if t != c {
                    if t == b {
                        let i = choose|i: int| 0 <= i < before.len() && #[trigger] before[i].time_modified == b;
                        assert(all[i] == before[i]);
                    } else {
                        assert(all[before.len() as int].time_modified == t);
                    }
                }
            },
            DirEntry::Dir(d) => {
                lemma_newest_found_is_max(d.entries@, d.entries@.len() as int, name, c);
                let inner = found_media(d.entries@, d.entries@.len() as int, name, c);
                let m = newest_found(d.entries@, d.entries@.len() as int, c);
                assert(all == before + inner);
                assert forall|i: int| 0 <= i < all.len() implies t.not_before(
                    #[trigger] all[i].time_modified,
                ) by {
                    if i < before.len() {
                        assert(all[i] == before[i]);
                    } else {
                        assert(all[i] == inner[i - before.len()]);
                    }
                }
                if t != c {
                    if t == b {
                        let i = choose|i: int| 0 <= i < before.len() && #[trigger] before[i].time_modified == b;
                        assert(all[i] == before[i]);
                    } else {
                        assert(t == m);
                        let i = choose|i: int| 0 <= i < inner.len() && #[trigger] inner[i].time_modified == m;
                        assert(all[before.len() + i] == inner[i]);
                    }
                }
            },
            DirEntry::Other => {},
        }
    }
}

/// The cutoff a scan returns is the latest of the cutoff it was given and
/// the modification times of the media it found.
pub proof fn lemma_scan_newest_is_max(tree: DirTree, name: Seq<char>, cutoff: Timestamp)
    ensures
        bounds_all(tree_newest(tree, cutoff), cutoff, tree_media(tree, name, cutoff)),
        attained(tree_newest(tree, cutoff), cutoff, tree_media(tree, name, cutoff)),
{
    lemma_newest_found_is_max(tree.entries@, tree.entries@.len() as int, name, cutoff);
}

} // verus!
