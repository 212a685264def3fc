//! Capture history: how capture files are named, which files of the history
//! directory are captures, their order, and which ones pruning deletes.
//! The directory itself is read and written by the application; this module
//! works on the names and sizes it reports.

use vstd::prelude::*;

use crate::paths::{file_name, join, joined, path_file_name, path_with_file_name, with_file_name};
use crate::text::{
    chars_equal, chars_of, decimal, decimal_chars, digit_char, digits_value, ends_with, ends_with_exec, find,
    find_exec, is_digit, parse_u64, parse_u64_exec, slice_chars, starts_with, starts_with_exec,
    string_of, unsigned_digits,
};

verus! {

/// Videos smaller than this are not plausible recordings.
pub const MIN_PLAUSIBLE_MP4_BYTES: u64 = 16384;

/// History keeps at most this many captures.
pub const MAX_CAPTURES: usize = 50;

/// History keeps at most this many videos.
pub const MAX_VIDEOS: usize = 10;

#[derive(Debug, Clone, Copy, PartialEq, Eq, Structural)]
pub enum CaptureKind {
    Image,
    Video,
}

pub open spec fn png_chars() -> Seq<char> {
    seq!['p', 'n', 'g']
}

pub open spec fn mp4_chars() -> Seq<char> {
    seq!['m', 'p', '4']
}

pub open spec fn capture_prefix() -> Seq<char> {
    seq!['c', 'a', 'p', 't', 'u', 'r', 'e', '-']
}

pub open spec fn recording_prefix() -> Seq<char> {
    seq!['r', 'e', 'c', 'o', 'r', 'd', 'i', 'n', 'g', '-']
}

/// The kind of capture a file extension stands for.
pub open spec fn kind_of_extension(ext: Seq<char>) -> Option<CaptureKind> {
    if ext == png_chars() {
        Some(CaptureKind::Image)
    } else if ext == mp4_chars() {
        Some(CaptureKind::Video)
    } else {
        None
    }
}

impl CaptureKind {
    pub fn from_extension(ext: &str) -> (k: Option<CaptureKind>)
        ensures
            k == kind_of_extension(ext@),
    {
        let e = chars_of(ext);
        if chars_equal(e.as_slice(), &['p', 'n', 'g']) {
            Some(CaptureKind::Image)
        } else if chars_equal(e.as_slice(), &['m', 'p', '4']) {
            Some(CaptureKind::Video)
        } else {
            None
        }
    }
}

/// The smallest plausible file size of a capture of this kind.
pub open spec fn min_bytes(kind: CaptureKind) -> nat {
    match kind {
        CaptureKind::Video => MIN_PLAUSIBLE_MP4_BYTES as nat,
        CaptureKind::Image => 1,
    }
}

/// Index of the last '.' in `s` at or before `i`.
pub open spec fn last_dot_from(s: Seq<char>, i: int) -> Option<int>
    decreases i + 1,
{
    if i < 0 || i >= s.len() {
        None
    } else if s[i] == '.' {
        Some(i)
    } else {
        last_dot_from(s, i - 1)
    }
}

/// Index of the last '.' in `s`.
pub open spec fn last_dot(s: Seq<char>) -> Option<int> {
    last_dot_from(s, s.len() - 1)
}

/// Timestamp and kind of a capture file name `capture-<ms>.<png|mp4>`.
pub open spec fn capture_name_parts(name: Seq<char>) -> Option<(u64, CaptureKind)> {
    if !starts_with(name, capture_prefix()) {
        None
    } else {
        let rest = name.subrange(8, name.len() as int);
        match last_dot(rest) {
            None => None,
            Some(d) => match kind_of_extension(rest.subrange(d + 1, rest.len() as int)) {
                None => None,
                Some(kind) => match parse_u64(rest.subrange(0, d)) {
                    None => None,
                    Some(ms) => Some((ms, kind)),
                },
            },
        }
    }
}

/// `capture-<ms>.<ext>`
pub open spec fn capture_name(ms: u64, ext: Seq<char>) -> Seq<char> {
    capture_prefix() + decimal(ms as nat) + seq!['.'] + ext
}

/// `recording-<ms>.mp4`, the name of a recording still being written.
pub open spec fn recording_name(ms: u64) -> Seq<char> {
    recording_prefix() + decimal(ms as nat) + seq!['.'] + mp4_chars()
}

/// The poster image of a video: the video's file name with ".png" appended.
pub open spec fn poster_path_spec(video: Seq<char>) -> Seq<char> {
    let name = match path_file_name(video) {
        Some(n) => n,
        None => Seq::<char>::empty(),
    };
    path_with_file_name(video, name + seq!['.', 'p', 'n', 'g'])
}

/// A capture in the history.
#[derive(Debug, Clone, PartialEq, Eq)]
pub struct CaptureEntry {
    pub path: String,
    pub id: String,
    pub created_ms: u64,
    pub kind: CaptureKind,
    pub poster: Option<String>,
}

/// What a capture entry holds, as plain values.
pub struct EntryView {
    pub path: Seq<char>,
    pub id: Seq<char>,
    pub created_ms: u64,
    pub kind: CaptureKind,
    pub poster: Option<Seq<char>>,
}

impl View for CaptureEntry {
    type V = EntryView;

    open spec fn view(&self) -> EntryView {
        EntryView {
            path: self.path@,
            id: self.id@,
            created_ms: self.created_ms,
            kind: self.kind,
            poster: match self.poster {
                Some(p) => Some(p@),
                None => None,
            },
        }
    }
}

/// A file of the history directory, as the application reports it: its
/// name, its size, and whether the poster image next to it is a file.
#[derive(Debug, Clone, PartialEq, Eq)]
pub struct DirFile {
    pub name: String,
    pub size: u64,
    pub poster_is_file: bool,
}

pub struct DirFileView {
    pub name: Seq<char>,
    pub size: u64,
    pub poster_is_file: bool,
}

impl View for DirFile {
    type V = DirFileView;

    open spec fn view(&self) -> DirFileView {
        DirFileView { name: self.name@, size: self.size, poster_is_file: self.poster_is_file }
    }
}

/// The history entry a directory file makes: a well-named capture of
/// plausible size, with its poster when it is a video whose poster exists.
pub open spec fn entry_view(dir: Seq<char>, f: DirFileView) -> Option<EntryView> {
    match capture_name_parts(f.name) {
        None => None,
        Some((ms, kind)) => if (f.size as nat) < min_bytes(kind) {
            None
        } else {
            let path = joined(dir, f.name);
            Some(
                EntryView {
                    path,
                    id: f.name,
                    created_ms: ms,
                    kind,
                    poster: if kind == CaptureKind::Video && f.poster_is_file {
                        Some(poster_path_spec(path))
                    } else {
                        None
                    },
                },
            )
        },
    }
}

/// The entries the directory files make, in the files' order.
pub open spec fn listing(dir: Seq<char>, files: Seq<DirFileView>) -> Seq<EntryView> {
    files.filter_map(|f: DirFileView| entry_view(dir, f))
}

proof fn lemma_entry_is_listed(dir: Seq<char>, files: Seq<DirFileView>, i: int)
    requires
        0 <= i < files.len(),
        entry_view(dir, files[i]) is Some,
    ensures
        listing(dir, files).contains(entry_view(dir, files[i])->0),
    decreases files.len(),
{
    let e = entry_view(dir, files[i])->0;
    let rest = files.drop_last();
    let pick = |f: DirFileView| entry_view(dir, f);
    assert(listing(dir, files) == files.filter_map(pick));
    if i == files.len() - 1 {
        assert(files.filter_map(pick) == rest.filter_map(pick) + seq![e]);
        assert(files.filter_map(pick)[rest.filter_map(pick).len() as int] == e);
    } else {
        assert(rest[i] == files[i]);
        lemma_entry_is_listed(dir, rest, i);
        let k = choose|k: int| 0 <= k < listing(dir, rest).len() && listing(dir, rest)[k] == e;
        assert(listing(dir, rest) == rest.filter_map(pick));
        match pick(files.last()) {
            Some(s) => {
                assert(files.filter_map(pick) == rest.filter_map(pick) + seq![s]);
                assert(files.filter_map(pick)[k] == e);
            },
            None => {
                assert(files.filter_map(pick) == rest.filter_map(pick));
            },
        }
    }
}

/// Resolving agrees with listing: among the files of a directory (distinct
/// names), the file under a safe id makes an entry exactly when the listing
/// shows an entry with that id, and then it is that entry.
pub proof fn lemma_resolve_agrees_with_list(dir: Seq<char>, files: Seq<DirFileView>, i: int)
    requires
        0 <= i < files.len(),
        forall|j: int, k: int| 0 <= j < k < files.len() ==> #[trigger] files[j].name != #[trigger] files[k].name,
    ensures
        match entry_view(dir, files[i]) {
            Some(e) => e.id == files[i].name && listing(dir, files).contains(e),
            None => forall|e: EntryView| #[trigger] listing(dir, files).contains(e) ==> e.id != files[i].name,
        },
{
    let pick = |f: DirFileView| entry_view(dir, f);
    if entry_view(dir, files[i]) is Some {
        lemma_entry_is_listed(dir, files, i);
    } else {
        assert forall|e: EntryView| #[trigger] listing(dir, files).contains(e) implies e.id != files[i].name by {
            assert(listing(dir, files) == files.filter_map(pick));
            files.lemma_filter_map_contains(pick, e);
            let t = choose|t: DirFileView| #[trigger] files.contains(t) && pick(t) == Some(e);
            let j = choose|j: int| 0 <= j < files.len() && files[j] == t;
            if e.id == files[i].name {
                assert(t.name == e.id);
                if j < i {
                    assert(files[j].name != files[i].name);
                } else if j > i {
                    assert(files[i].name != files[j].name);
                }
            }
        }
    }
}

/// An id names a file inside the history directory: no separator, no "..".
pub open spec fn id_is_safe(id: Seq<char>) -> bool {
    !id.contains('/') && find(id, seq!['.', '.']) is None
}

/// Entries ordered newest first.
pub open spec fn newest_first(entries: Seq<EntryView>) -> bool {
    forall|i: int, j: int|
        0 <= i < j < entries.len() ==> #[trigger] entries[i].created_ms >= #[trigger] entries[j].created_ms
}

/// Number of videos among the first `n` entries.
pub open spec fn videos_in(entries: Seq<EntryView>, n: int) -> nat
    decreases n,
{
    if n <= 0 || entries.len() == 0 {
        0
    } else if n > entries.len() {
        videos_in(entries, entries.len() as int)
    } else {
        videos_in(entries, n - 1) + if entries[n - 1].kind == CaptureKind::Video {
            1nat
        } else {
            0nat
        }
    }
}

/// Pruning deletes the entry at `i` (of a newest-first list) when it is past
/// the first 50, or when it is a video with ten newer-or-equal videos before it.
pub open spec fn pruned(entries: Seq<EntryView>, i: int) -> bool {
    i >= MAX_CAPTURES || (entries[i].kind == CaptureKind::Video && videos_in(entries, i + 1) > MAX_VIDEOS)
}

/// The poster image of a video: its file name with ".png" appended.
pub fn poster_path(video: &str) -> (p: String)
    ensures
        p@ == poster_path_spec(video@),
{
    let mut name = match file_name(video) {
        Some(n) => chars_of(n.as_str()),
        None => Vec::new(),
    };
    name.push('.');
    name.push('p');
    name.push('n');
    name.push('g');
    let s = string_of(name.as_slice());
    proof {
        let expected = match path_file_name(video@) {
            Some(n) => n,
            None => Seq::<char>::empty(),
        };
        assert(name@ =~= expected + seq!['.', 'p', 'n', 'g']);
    }
    with_file_name(video, s.as_str())
}

/// Whether a file name is a recording still being written (`recording-*.mp4`),
/// which opening the history sweeps away.
pub fn is_in_progress_recording(name: &str) -> (r: bool)
    ensures
        r == (starts_with(name@, recording_prefix()) && ends_with(name@, seq!['.', 'm', 'p', '4'])),
{
    let n = chars_of(name);
    let prefix = vec!['r', 'e', 'c', 'o', 'r', 'd', 'i', 'n', 'g', '-'];
    let suffix = vec!['.', 'm', 'p', '4'];
    assert(prefix@ =~= recording_prefix());
    assert(suffix@ =~= seq!['.', 'm', 'p', '4']);
    starts_with_exec(n.as_slice(), prefix.as_slice()) && ends_with_exec(n.as_slice(), suffix.as_slice())
}

/// Timestamp and kind of a capture file name.
pub fn parse_capture_name(name: &str) -> (r: Option<(u64, CaptureKind)>)
    ensures
        r == capture_name_parts(name@),
{
    let n = chars_of(name);
    let prefix = vec!['c', 'a', 'p', 't', 'u', 'r', 'e', '-'];
    assert(prefix@ =~= capture_prefix());
    if !starts_with_exec(n.as_slice(), prefix.as_slice()) {
        return None;
    }
    let rest = slice_chars(n.as_slice(), 8, n.len());
    let ghost rest_spec = name@.subrange(8, name@.len() as int);
    assert(rest@ == rest_spec);
    let mut i = rest.len();
    while i > 0
        invariant
            i <= rest@.len(),
            last_dot(rest@) == last_dot_from(rest@, i - 1),
        ensures
            i <= rest@.len(),
            last_dot(rest@) == last_dot_from(rest@, i - 1),
            i == 0 || rest@[i - 1] == '.',
        decreases i,
    {
        if rest[i - 1] == '.' {
            break;
        }
        i = i - 1;
    }
    if i == 0 {
        assert(last_dot_from(rest@, -1) is None);
        return None;
    }
    let dot = i - 1;
    assert(last_dot(rest@) == Some(dot as int));
    let ext = slice_chars(rest.as_slice(), dot + 1, rest.len());
    let kind = if chars_equal(ext.as_slice(), &['p', 'n', 'g']) {
        CaptureKind::Image
    } else if chars_equal(ext.as_slice(), &['m', 'p', '4']) {
        CaptureKind::Video
    } else {
        return None;
    };
    assert(kind_of_extension(ext@) == Some(kind));
    let stem = slice_chars(rest.as_slice(), 0, dot);
    match parse_u64_exec(stem.as_slice()) {
        Some(ms) => Some((ms, kind)),
        None => None,
    }
}

fn append_chars(v: &mut Vec<char>, s: &[char])
    ensures
        final(v)@ == old(v)@ + s@,
{
    let mut i: usize = 0;
    let ghost start = v@;
    while i < s.len()
        invariant
            i <= s@.len(),
            v@ == start + s@.subrange(0, i as int),
        decreases s@.len() - i,
    {
        v.push(s[i]);
        i = i + 1;
        assert(v@ =~= start + s@.subrange(0, i as int));
    }
    assert(s@.subrange(0, s@.len() as int) =~= s@);
}

/// Whether `s` contains "..".
fn has_double_dot(s: &[char]) -> (r: bool)
    ensures
        r == (find(s@, seq!['.', '.']) is Some),
{
    let pat = vec!['.', '.'];
    assert(pat@ =~= seq!['.', '.']);
    if s.len() == 0 {
        return false;
    }
    match find_exec(s, pat.as_slice(), 0) {
        Some(_) => true,
        None => false,
    }
}

/// Whether `s` contains '/'.
fn has_separator(s: &[char]) -> (r: bool)
    ensures
        r == s@.contains('/'),
{
    let mut i: usize = 0;
    while i < s.len()
        invariant
            i <= s@.len(),
            forall|j: int| 0 <= j < i ==> s@[j] != '/',
        decreases s@.len() - i,
    {
        if s[i] == '/' {
            return true;
        }
        i = i + 1;
    }
    false
}

/// The history directory and the captures it holds.
pub struct History {
    dir: String,
}

impl History {
    pub closed spec fn directory(&self) -> Seq<char> {
        self.dir@
    }

    /// History over the captures in `dir`.
    pub fn with_dir(dir: String) -> (h: History)
        ensures
            h.directory() == dir@,
    {
        History { dir }
    }

    /// The history directory.
    pub fn dir(&self) -> (d: &str)
        ensures
            d@ == self.directory(),
    {
        self.dir.as_str()
    }

    /// Path of the file `name` inside the history directory.
    pub fn path_of(&self, name: &str) -> (p: String)
        ensures
            p@ == joined(self.directory(), name@),
    {
        join(self.dir.as_str(), name)
    }

    /// Path of the capture taken at `now_ms` with extension `ext`.
    pub fn capture_path_at(&self, ext: &str, now_ms: u64) -> (p: String)
        ensures
            p@ == joined(self.directory(), capture_name(now_ms, ext@)),
    {
        let mut name = vec!['c', 'a', 'p', 't', 'u', 'r', 'e', '-'];
        let digits = decimal_chars(now_ms);
        append_chars(&mut name, digits.as_slice());
        name.push('.');
        let e = chars_of(ext);
        append_chars(&mut name, e.as_slice());
        assert(name@ =~= capture_name(now_ms, ext@));
        let n = string_of(name.as_slice());
        join(self.dir.as_str(), n.as_str())
    }

    /// Path for a new capture with extension `ext`, named by the current time.
    pub fn new_capture_path(&self, ext: &str) -> (p: String)
        ensures
            exists|ms: u64| p@ == joined(self.directory(), capture_name(ms, ext@)),
    {
        let now = now_ms();
        self.capture_path_at(ext, now)
    }

    /// Where a recording is written while it runs and where it ends up, both
    /// named by the same timestamp `now_ms`.
    pub fn recording_paths_at(&self, now_ms: u64) -> (paths: (String, String))
        ensures
            paths.0@ == joined(self.directory(), recording_name(now_ms)),
            paths.1@ == joined(self.directory(), capture_name(now_ms, mp4_chars())),
    {
        let mut name = vec!['r', 'e', 'c', 'o', 'r', 'd', 'i', 'n', 'g', '-'];
        let digits = decimal_chars(now_ms);
        append_chars(&mut name, digits.as_slice());
        append_chars(&mut name, &['.', 'm', 'p', '4']);
        assert(name@ =~= recording_name(now_ms));
        let n = string_of(name.as_slice());
        let in_progress = join(self.dir.as_str(), n.as_str());
        let mp4 = string_of(&['m', 'p', '4']);
        assert(mp4@ =~= mp4_chars());
        let final_path = self.capture_path_at(mp4.as_str(), now_ms);
        (in_progress, final_path)
    }

    /// The in-progress and final paths of a new recording, sharing one timestamp.
    pub fn new_recording_paths(&self) -> (paths: (String, String))
        ensures
            exists|ms: u64|
                paths.0@ == joined(self.directory(), recording_name(ms)) && paths.1@ == joined(
                    self.directory(),
                    capture_name(ms, mp4_chars()),
                ),
    {
        let now = now_ms();
        self.recording_paths_at(now)
    }

    /// The history entry for the directory file `f`, if it is a capture.
    pub fn entry(&self, f: &DirFile) -> (e: Option<CaptureEntry>)
        ensures
            match e {
                Some(e) => entry_view(self.directory(), f@) == Some(e@),
                None => entry_view(self.directory(), f@) is None,
            },
    {
        let (created_ms, kind) = match parse_capture_name(f.name.as_str()) {
            Some(parts) => parts,
            None => return None,
        };
        let min = match kind {
            CaptureKind::Video => MIN_PLAUSIBLE_MP4_BYTES,
            CaptureKind::Image => 1,
        };
        if f.size < min {
            return None;
        }
        let path = join(self.dir.as_str(), f.name.as_str());
        let poster = match kind {
            CaptureKind::Video => if f.poster_is_file {
                Some(poster_path(path.as_str()))
            } else {
                None
            },
            CaptureKind::Image => None,
        };
        let id = f.name.clone();
        Some(CaptureEntry { path, id, created_ms, kind, poster })
    }

    /// The entry named `id`, provided the id stays inside the history
    /// directory; `file` is what the application found under that name.
    pub fn resolve(&self, id: &str, file: &DirFile) -> (e: Option<CaptureEntry>)
        requires
            file.name@ == id@,
        ensures
            match e {
                Some(e) => id_is_safe(id@) && entry_view(self.directory(), file@) == Some(e@),
                None => !id_is_safe(id@) || entry_view(self.directory(), file@) is None,
            },
    {
        let chars = chars_of(id);
        if has_separator(chars.as_slice()) || has_double_dot(chars.as_slice()) {
            return None;
        }
        self.entry(file)
    }

    /// The captures among the directory files, newest first.
    pub fn list(&self, files: &Vec<DirFile>) -> (entries: Vec<CaptureEntry>)
        ensures
            newest_first(entries@.map_values(|e: CaptureEntry| e@)),
            entries@.map_values(|e: CaptureEntry| e@).to_multiset() == listing(
                self.directory(),
                files@.map_values(|f: DirFile| f@),
            ).to_multiset(),
            forall|t: u64|
                #[trigger] at_time(entry_views(entries@), t) == at_time(
                    listing(self.directory(), files@.map_values(|f: DirFile| f@)),
                    t,
                ),
    {
        let ghost fv = files@.map_values(|f: DirFile| f@);
        let ghost pick = |f: DirFileView| entry_view(self.directory(), f);
        let mut entries: Vec<CaptureEntry> = Vec::new();
        let mut i: usize = 0;
        proof {
            broadcast use vstd::seq_lib::group_to_multiset_ensures;

            assert(fv.take(0) =~= Seq::<DirFileView>::empty());
            assert(entries@.map_values(|e: CaptureEntry| e@) =~= Seq::<EntryView>::empty());
            assert(Seq::<EntryView>::empty().to_multiset().len() == 0);
            assert(Seq::<EntryView>::empty().to_multiset() =~= vstd::multiset::Multiset::<EntryView>::empty());
        }
        while i < files.len()
            invariant
                i <= files@.len(),
                fv == files@.map_values(|f: DirFile| f@),
                pick == (|f: DirFileView| entry_view(self.directory(), f)),
                newest_first(entries@.map_values(|e: CaptureEntry| e@)),
                entries@.map_values(|e: CaptureEntry| e@).to_multiset() == fv.take(i as int).filter_map(
                    pick,
                ).to_multiset(),
                forall|t: u64|
                    #[trigger] at_time(entry_views(entries@), t) == at_time(
                        fv.take(i as int).filter_map(pick),
                        t,
                    ),
            decreases files@.len() - i,
        {
            let ghost before = entries@.map_values(|e: CaptureEntry| e@);
            proof {
                fv.lemma_filter_map_take_succ(pick, i as int);
            }
            let found = self.entry(&files[i]);
            assert(fv[i as int] == files@[i as int]@);
            match found {
                Some(e) => {
                    let ghost ev = e@;
                    insert_newest_first(&mut entries, e);
                    proof {
                        let prev = fv.take(i as int).filter_map(pick);
                        assert(pick(fv[i as int]) == Some(ev));
                        assert(prev + seq![ev] =~= prev.push(ev));
                        vstd::seq_lib::to_multiset_build(prev, ev);
                        assert forall|t: u64| #[trigger] at_time(prev.push(ev), t) == if t == ev.created_ms {
                            at_time(prev, t).push(ev)
                        } else {
                            at_time(prev, t)
                        } by {
                            prev.lemma_filter_push(ev, |x: EntryView| x.created_ms == t);
                        }
                    }
                },
                None => {
                    assert(pick(fv[i as int]) is None);
                    assert(fv.take(i as int).filter_map(pick) + Seq::<EntryView>::empty() =~= fv.take(
                        i as int,
                    ).filter_map(pick));
                },
            }
            i = i + 1;
        }
        assert(fv.take(files@.len() as int) =~= fv);
        entries
    }

    /// Which entries of a newest-first list pruning deletes: those past the
    /// first 50 and the videos beyond the 10 newest. Returns their indices,
    /// ascending.
    pub fn prune(&self, entries: &Vec<CaptureEntry>) -> (doomed: Vec<usize>)
        ensures
            forall|k: int|
                0 <= k < doomed@.len() ==> #[trigger] doomed@[k] < entries@.len() && pruned(
                    entries@.map_values(|e: CaptureEntry| e@),
                    doomed@[k] as int,
                ),
            forall|k1: int, k2: int|
                0 <= k1 < k2 < doomed@.len() ==> #[trigger] doomed@[k1] < #[trigger] doomed@[k2],
            forall|i: int|
                0 <= i < entries@.len() && pruned(entries@.map_values(|e: CaptureEntry| e@), i)
                    ==> #[trigger] doomed@.contains(i as usize),
            forall|i: int|
                0 <= i < entries@.len() ==> (#[trigger] doomed@.contains(i as usize) <==> (i >= 50 || (
                entries@[i].kind == CaptureKind::Video && entry_views(entries@).take(i + 1).filter(
                    |e: EntryView| e.kind == CaptureKind::Video,
                ).len() > 10))),
    {
        let ghost ev = entries@.map_values(|e: CaptureEntry| e@);
        let mut doomed: Vec<usize> = Vec::new();
        let mut videos: usize = 0;
        let mut index: usize = 0;
        while index < entries.len()
            invariant
                index <= entries@.len(),
                ev == entries@.map_values(|e: CaptureEntry| e@),
                videos == videos_in(ev, index as int),
                videos <= index,
                forall|k: int| 0 <= k < doomed@.len() ==> #[trigger] doomed@[k] < index && pruned(ev, doomed@[k] as int),
                forall|k1: int, k2: int|
                    0 <= k1 < k2 < doomed@.len() ==> #[trigger] doomed@[k1] < #[trigger] doomed@[k2],
                forall|i: int| 0 <= i < index && pruned(ev, i) ==> #[trigger] doomed@.contains(i as usize),
            decreases entries@.len() - index,
        {
            let is_video = entries[index].kind == CaptureKind::Video;
            if is_video {
                videos = videos + 1;
            }
            assert(videos == videos_in(ev, index + 1));
            let over_video_cap = is_video && videos > MAX_VIDEOS;
            if index >= MAX_CAPTURES || over_video_cap {
                let ghost old_doomed = doomed@;
                doomed.push(index);
                assert forall|i: int| 0 <= i < index + 1 && pruned(ev, i) implies #[trigger] doomed@.contains(
                    i as usize,
                ) by {
                    if i < index {
                        assert(old_doomed.contains(i as usize));
                        let k = choose|k: int| 0 <= k < old_doomed.len() && old_doomed[k] == i as usize;
                        assert(doomed@[k] == i as usize);
                    } else {
                        assert(doomed@[doomed@.len() - 1] == i as usize);
                    }
                }
            } else {
                assert(!pruned(ev, index as int));
            }
            index = index + 1;
        }
        proof {
            assert(ev == entry_views(entries@));
            assert forall|i: int| 0 <= i < entries@.len() implies (#[trigger] doomed@.contains(i as usize)
                <==> (i >= 50 || (entries@[i].kind == CaptureKind::Video && entry_views(entries@).take(
                i + 1,
            ).filter(|e: EntryView| e.kind == CaptureKind::Video).len() > 10))) by {
                lemma_prune_rule(ev, i);
                assert(ev[i].kind == entries@[i].kind);
                if doomed@.contains(i as usize) {
                    let k = choose|k: int| 0 <= k < doomed@.len() && doomed@[k] == i as usize;
                    assert(pruned(ev, doomed@[k] as int));
                }
            }
        }
        doomed
    }
}

/// The plain values of entries.
pub open spec fn entry_views(entries: Seq<CaptureEntry>) -> Seq<EntryView> {
    entries.map_values(|e: CaptureEntry| e@)
}

/// The entries taken at millisecond `t`, in their order.
pub open spec fn at_time(entries: Seq<EntryView>, t: u64) -> Seq<EntryView> {
    entries.filter(|e: EntryView| e.created_ms == t)
}

proof fn lemma_at_time_insert(bv: Seq<EntryView>, pos: int, ev: EntryView, t: u64)
    requires
        0 <= pos <= bv.len(),
        forall|k: int| pos <= k < bv.len() ==> (#[trigger] bv[k]).created_ms < ev.created_ms,
    ensures
        at_time(bv.insert(pos, ev), t) == if t == ev.created_ms {
            at_time(bv, t).push(ev)
        } else {
            at_time(bv, t)
        },
{
    let p = |e: EntryView| e.created_ms == t;
    let a = bv.subrange(0, pos);
    let b = bv.subrange(pos, bv.len() as int);
    assert(bv =~= a + b);
    assert(bv.insert(pos, ev) =~= a.push(ev) + b);
    Seq::filter_distributes_over_add(a, b, p);
    Seq::filter_distributes_over_add(a.push(ev), b, p);
    a.lemma_filter_push(ev, p);
    if t == ev.created_ms {
        assert forall|k: int| 0 <= k < b.len() implies !p(#[trigger] b[k]) by {
            assert(b[k] == bv[pos + k]);
        }
        b.lemma_all_neg_filter_empty(p);
        assert(b.filter(p) =~= Seq::<EntryView>::empty());
        assert(a.filter(p).push(ev) + b.filter(p) =~= (a.filter(p) + b.filter(p)).push(ev));
    }
}

/// Inserts `e` into a newest-first list after every entry at least as new.
fn insert_newest_first(entries: &mut Vec<CaptureEntry>, e: CaptureEntry)
    requires
        newest_first(old(entries)@.map_values(|x: CaptureEntry| x@)),
    ensures
        newest_first(final(entries)@.map_values(|x: CaptureEntry| x@)),
        final(entries)@.map_values(|x: CaptureEntry| x@).to_multiset() == old(entries)@.map_values(
            |x: CaptureEntry| x@,
        ).to_multiset().insert(e@),
        forall|t: u64|
            #[trigger] at_time(entry_views(final(entries)@), t) == if t == e.created_ms {
                at_time(entry_views(old(entries)@), t).push(e@)
            } else {
                at_time(entry_views(old(entries)@), t)
            },
{
    let mut pos: usize = 0;
    while pos < entries.len()
        invariant
            pos <= entries@.len(),
            forall|k: int| 0 <= k < pos ==> (#[trigger] entries@[k]).created_ms >= e.created_ms,
        ensures
            pos <= entries@.len(),
            forall|k: int| 0 <= k < pos ==> (#[trigger] entries@[k]).created_ms >= e.created_ms,
            pos < entries@.len() ==> entries@[pos as int].created_ms < e.created_ms,
        decreases entries@.len() - pos,
    {
        if entries[pos].created_ms < e.created_ms {
            break;
        }
        pos = pos + 1;
    }
    let ghost before = entries@;
    let ghost ev = e@;
    proof {
        assert(pos < entries@.len() ==> entries@[pos as int].created_ms < e.created_ms);
    }
    entries.insert(pos, e);
    proof {
        let bv = before.map_values(|x: CaptureEntry| x@);
        let av = entries@.map_values(|x: CaptureEntry| x@);
        assert(av =~= bv.insert(pos as int, ev));
        vstd::seq_lib::to_multiset_insert(bv, pos as int, ev);
        assert forall|i: int, j: int| 0 <= i < j < av.len() implies #[trigger] av[i].created_ms
            >= #[trigger] av[j].created_ms by {
            if j < pos {
                assert(av[i] == bv[i] && av[j] == bv[j]);
            } else if j == pos {
                assert(av[i] == bv[i]);
            } else if i < pos {
                assert(av[i] == bv[i] && av[j] == bv[j - 1]);
                if pos < bv.len() {
                    assert(bv[j - 1].created_ms <= bv[pos as int].created_ms || j - 1 == pos);
                }
            } else if i == pos {
                assert(av[j] == bv[j - 1]);
                if pos < bv.len() {
                    assert(bv[pos as int].created_ms < ev.created_ms);
                }
            } else {
                assert(av[i] == bv[i - 1] && av[j] == bv[j - 1]);
            }
        }
        assert forall|k: int| pos <= k < bv.len() implies (#[trigger] bv[k]).created_ms < ev.created_ms by {
            assert(bv[pos as int].created_ms < ev.created_ms);
            if k > pos {
                assert(bv[pos as int].created_ms >= bv[k].created_ms);
            }
        }
        assert forall|t: u64| #[trigger] at_time(av, t) == if t == ev.created_ms {
            at_time(bv, t).push(ev)
        } else {
            at_time(bv, t)
        } by {
            lemma_at_time_insert(bv, pos as int, ev, t);
        }
    }
}

/// Entries among the first `n` that pruning keeps.
pub open spec fn kept_count(entries: Seq<EntryView>, n: int) -> nat
    decreases n,
{
    if n <= 0 {
        0
    } else {
        kept_count(entries, n - 1) + if pruned(entries, n - 1) {
            0nat
        } else {
            1nat
        }
    }
}

/// Videos among the first `n` entries that pruning keeps.
pub open spec fn kept_videos(entries: Seq<EntryView>, n: int) -> nat
    decreases n,
{
    if n <= 0 {
        0
    } else {
        kept_videos(entries, n - 1) + if !pruned(entries, n - 1) && entries[n - 1].kind
            == CaptureKind::Video {
            1nat
        } else {
            0nat
        }
    }
}

proof fn lemma_kept_bounds(entries: Seq<EntryView>, n: int)
    requires
        0 <= n <= entries.len(),
    ensures
        kept_count(entries, n) <= if n <= MAX_CAPTURES {
            n
        } else {
            MAX_CAPTURES as int
        },
        kept_videos(entries, n) <= videos_in(entries, n),
        kept_videos(entries, n) <= MAX_VIDEOS,
    decreases n,
{
    if n > 0 {
        lemma_kept_bounds(entries, n - 1);
    }
}

/// After pruning a history, at most 50 captures and at most 10 videos remain.
pub proof fn lemma_prune_caps(entries: Seq<EntryView>)
    ensures
        kept_count(entries, entries.len() as int) <= MAX_CAPTURES,
        kept_videos(entries, entries.len() as int) <= MAX_VIDEOS,
{
    lemma_kept_bounds(entries, entries.len() as int);
}

/// Pruning never deletes one of the first 50 images of the history.
pub proof fn lemma_prune_keeps_newest_images(entries: Seq<EntryView>, i: int)
    requires
        0 <= i < entries.len(),
        i < MAX_CAPTURES,
        entries[i].kind == CaptureKind::Image,
    ensures
        !pruned(entries, i),
{
}

/// The videos among the first `n` entries, counted by filtering.
proof fn lemma_videos_in_counts(entries: Seq<EntryView>, n: int)
    requires
        0 <= n <= entries.len(),
    ensures
        videos_in(entries, n) == entries.take(n).filter(|e: EntryView| e.kind == CaptureKind::Video).len(),
    decreases n,
{
    let p = |e: EntryView| e.kind == CaptureKind::Video;
    if n == 0 {
        assert(entries.take(0) =~= Seq::<EntryView>::empty());
        assert(Seq::<EntryView>::empty().filter(p) =~= Seq::<EntryView>::empty());
    } else {
        lemma_videos_in_counts(entries, n - 1);
        assert(entries.take(n) =~= entries.take(n - 1).push(entries[n - 1]));
        entries.take(n - 1).lemma_filter_push(entries[n - 1], p);
    }
}

/// Pruning is exact: the entry at index `i` of a newest-first history is
/// deleted if and only if it is past the 50 newest captures, or it is a
/// video and more than 10 videos are among the entries up to and including
/// it. So an image among the 50 newest, and a video that is both among the
/// 50 newest and among the 10 newest videos, are kept.
pub proof fn lemma_prune_rule(entries: Seq<EntryView>, i: int)
    requires
        0 <= i < entries.len(),
    ensures
        pruned(entries, i) <==> (i >= 50 || (entries[i].kind == CaptureKind::Video && entries.take(i + 1).filter(
            |e: EntryView| e.kind == CaptureKind::Video,
        ).len() > 10)),
{
    lemma_videos_in_counts(entries, i + 1);
}

/// The value of a decimal representation is the number it represents.
pub proof fn lemma_decimal_value(n: nat)
    ensures
        digits_value(decimal(n)) == n,
    decreases n,
{
    let d = (n % 10) as int;
    assert(digit_char(d) as nat == 48 + d);
    if n >= 10 {
        lemma_decimal_value(n / 10);
        assert(decimal(n).drop_last() =~= decimal(n / 10));
        assert(decimal(n).last() == digit_char(d));
        assert(digits_value(decimal(n)) == digits_value(decimal(n / 10)) * 10 + d);
        assert((n / 10) * 10 + n % 10 == n);
    } else {
        assert(decimal(n).drop_last() =~= Seq::<char>::empty());
        assert(decimal(n).last() == digit_char(d));
        assert(digits_value(decimal(n)) == digits_value(Seq::<char>::empty()) * 10 + d);
    }
}

/// Parsing a decimal representation gives back the number.
pub proof fn lemma_parse_decimal(n: u64)
    ensures
        parse_u64(decimal(n as nat)) == Some(n),
{
    lemma_decimal_digits(n as nat);
    lemma_decimal_value(n as nat);
    let d = decimal(n as nat);
    assert(unsigned_digits(d) == d);
    assert forall|i: int| 0 <= i < d.len() implies is_digit(#[trigger] d[i]) by {}
}

/// The file name a capture is written under parses back to its timestamp
/// and kind, so every capture the application writes is listed.
pub proof fn lemma_capture_name_round_trip(ms: u64, kind: CaptureKind)
    ensures
        capture_name_parts(
            capture_name(
                ms,
                match kind {
                    CaptureKind::Image => png_chars(),
                    CaptureKind::Video => mp4_chars(),
                },
            ),
        ) == Some((ms, kind)),
{
    let ext = match kind {
        CaptureKind::Image => png_chars(),
        CaptureKind::Video => mp4_chars(),
    };
    let dec = decimal(ms as nat);
    let name = capture_name(ms, ext);
    lemma_decimal_digits(ms as nat);
    lemma_parse_decimal(ms);
    assert(name.subrange(0, 8) =~= capture_prefix());
    let rest = name.subrange(8, name.len() as int);
    assert(rest =~= dec + seq!['.'] + ext);
    let k = dec.len() as int;
    assert(rest[k + 3] != '.');
    assert(rest[k + 2] != '.');
    assert(rest[k + 1] != '.');
    assert(rest[k] == '.');
    assert(last_dot_from(rest, k) == Some(k));
    assert(last_dot_from(rest, k + 1) == Some(k));
    assert(last_dot_from(rest, k + 2) == Some(k));
    assert(last_dot_from(rest, k + 3) == Some(k));
    assert(last_dot(rest) == Some(k));
    assert(rest.subrange(k + 1, rest.len() as int) =~= ext);
    assert(rest.subrange(0, k) =~= dec);
}

/// Names of recordings in progress are never capture names, so they are
/// never listed.
pub proof fn lemma_in_progress_never_listed(dir: Seq<char>, f: DirFileView)
    requires
        starts_with(f.name, recording_prefix()),
    ensures
        entry_view(dir, f) is None,
{
    if starts_with(f.name, capture_prefix()) {
        assert(f.name.subrange(0, 8)[0] == capture_prefix()[0]);
        assert(f.name.subrange(0, 10)[0] == recording_prefix()[0]);
    }
}

/// An entry is only ever produced for a name whose size is plausible for its kind.
pub proof fn lemma_listed_entries_are_plausible(dir: Seq<char>, f: DirFileView)
    ensures
        entry_view(dir, f) matches Some(e) ==> f.size >= min_bytes(e.kind) && e.id == f.name
            && capture_name_parts(f.name) == Some((e.created_ms, e.kind)),
{
}

/// Every character of a decimal representation is a digit.
pub proof fn lemma_decimal_digits(n: nat)
    ensures
        forall|j: int| 0 <= j < decimal(n).len() ==> '0' <= #[trigger] decimal(n)[j] <= '9',
        decimal(n).len() >= 1,
    decreases n,
{
    if n >= 10 {
        lemma_decimal_digits(n / 10);
    }
}

/// Milliseconds since the Unix epoch from `SystemTime::now`, 0 when the
/// clock reads earlier. Trusted, with no claim on the value: it is the time.
#[verifier::external_body]
fn now_ms() -> (ms: u64) {
    std::time::SystemTime::now().duration_since(std::time::UNIX_EPOCH).map(|d| d.as_millis() as u64).unwrap_or(0)
}

} // verus!
