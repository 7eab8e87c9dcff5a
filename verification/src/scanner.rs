//! Directory scanner: turns a directory listing into a deterministic,
//! filename-sorted catalog of video clips.
//!
//! The scanner itself is pure: the caller enumerates the directory and hands
//! the entries over as plain values; this module decides eligibility, builds
//! the clips, and sorts the catalog.

use vstd::prelude::*;
use vstd::seq_lib::group_to_multiset_ensures;

use crate::guard::is_blocked_path;
use crate::guard::is_blocked_directory;
use crate::pathops::spec_file_name;
use crate::pathops::spec_join;
use crate::pathops::file_name_of;
use crate::pathops::join_path;
use crate::types::OrganizerError;
use crate::types::VideoClip;
use crate::types::VideoClipView;

verus! {

/// Mathematical view of a [`DirEntry`].
pub struct DirEntryView {
    pub name: Seq<char>,
    pub is_file: bool,
    pub size: Option<u64>,
}

/// One directory entry, as plain values: its name, whether it is a regular
/// file, and its size in bytes (`None` when the metadata fetch failed; such
/// an entry still joins the catalog, with size zero, rather than failing the
/// whole scan).
#[derive(Debug, Clone, PartialEq)]
pub struct DirEntry {
    pub name: String,
    pub is_file: bool,
    pub size: Option<u64>,
}

impl View for DirEntry {
    type V = DirEntryView;

    open spec fn view(&self) -> DirEntryView {
        DirEntryView { name: self.name@, is_file: self.is_file, size: self.size }
    }
}

/// The extension is, case-insensitively, `mp4` or `mov`.
pub open spec fn is_video_ext(e: Seq<char>) -> bool {
    e.len() == 3 && (e[0] == 'm' || e[0] == 'M') && (((e[1] == 'p' || e[1] == 'P') && e[2] == '4')
        || ((e[1] == 'o' || e[1] == 'O') && (e[2] == 'v' || e[2] == 'V')))
}

/// The index just after the last `.` of `s`; `0` when `s` has none.
pub open spec fn dot_point(s: Seq<char>) -> int
    decreases s.len(),
{
    if s.len() == 0 {
        0
    } else if s[s.len() - 1] == '.' {
        s.len() as int
    } else {
        dot_point(s.drop_last())
    }
}

proof fn lemma_dot_point_bounds(s: Seq<char>)
    ensures
        0 <= dot_point(s) <= s.len(),
    decreases s.len(),
{
    if s.len() > 0 && s[s.len() - 1] != '.' {
        lemma_dot_point_bounds(s.drop_last());
    }
}

/// The extension of a filename: what follows the last `.`, provided at least
/// one character precedes that dot (so a leading-dot hidden file has none).
pub open spec fn spec_ext(name: Seq<char>) -> Option<Seq<char>> {
    let k = dot_point(name);
    if k <= 1 {
        None
    } else {
        Some(name.subrange(k, name.len() as int))
    }
}

/// A path names a video file when its filename component carries a video
/// extension.
pub open spec fn spec_has_video_extension(path: Seq<char>) -> bool {
    match spec_file_name(path) {
        Some(f) => match spec_ext(f) {
            Some(e) => is_video_ext(e),
            None => false,
        },
        None => false,
    }
}

/// The stored format of an eligible entry: its extension in lower case.
pub open spec fn spec_format(e: Seq<char>) -> Seq<char> {
    if e.len() == 3 && (e[1] == 'p' || e[1] == 'P') {
        "mp4"@
    } else {
        "mov"@
    }
}

/// Finds the index just after the last `.` of `s`.
fn find_dot_point(s: &str) -> (r: usize)
    ensures
        r == dot_point(s@),
{
    let n = s.unicode_len();
    let mut i: usize = n;
    assert(s@.take(n as int) =~= s@);
    while i > 0
        invariant
            i <= n == s@.len(),
            dot_point(s@) == dot_point(s@.take(i as int)),
        decreases i,
    {
        let c = s.get_char(i - 1);
        if c == '.' {
            assert(s@.take(i as int)[i - 1] == s@[i - 1]);
            return i;
        }
        proof {
            assert(s@.take(i as int)[i - 1] == s@[i - 1]);
            assert(s@.take(i as int).drop_last() =~= s@.take(i as int - 1));
        }
        i = i - 1;
    }
    assert(s@.take(0) =~= Seq::<char>::empty());
    0
}

/// The lower-cased video format of the path's extension, when the path names
/// a video file; `None` otherwise.
pub fn video_format_of(path: &str) -> (r: Option<String>)
    ensures
        match r {
            Some(f) => spec_has_video_extension(path@) && match spec_file_name(path@) {
                Some(name) => match spec_ext(name) {
                    Some(e) => f@ == spec_format(e),
                    None => false,
                },
                None => false,
            },
            None => !spec_has_video_extension(path@),
        },
{
    let name = match file_name_of(path) {
        Some(n) => n,
        None => {
            return None;
        },
    };
    let n = name.as_str().unicode_len();
    let k = find_dot_point(name.as_str());
    proof {
        lemma_dot_point_bounds(name@);
    }
    if k <= 1 {
        return None;
    }
    let e = name.as_str().substring_char(k, n);
    if n - k != 3 {
        return None;
    }
    let c0 = e.get_char(0);
    let c1 = e.get_char(1);
    let c2 = e.get_char(2);
    if !(c0 == 'm' || c0 == 'M') {
        return None;
    }
    if (c1 == 'p' || c1 == 'P') && c2 == '4' {
        Some(String::from_str("mp4"))
    } else if (c1 == 'o' || c1 == 'O') && (c2 == 'v' || c2 == 'V') {
        Some(String::from_str("mov"))
    } else {
        None
    }
}

/// Does the path name a regular video file by extension? Case-insensitive
/// over the fixed allow-list of `mp4` and `mov`.
pub fn has_video_extension(path: &str) -> (r: bool)
    ensures
        r == spec_has_video_extension(path@),
{
    video_format_of(path).is_some()
}

/// The scan gate: a directory may be scanned when it exists as a directory
/// and is not a protected system path. Failing the first test reports
/// `NotADirectory`; failing the guard reports `AccessDenied`.
pub fn check_scan_source(path: &str, is_dir: bool) -> (r: Result<(), OrganizerError>)
    ensures
        r is Ok <==> (is_dir && !is_blocked_path(path@)),
        !is_dir ==> r == Err::<(), OrganizerError>(OrganizerError::NotADirectory),
        is_dir && is_blocked_path(path@) ==> r == Err::<(), OrganizerError>(
            OrganizerError::AccessDenied,
        ),
{
    if !is_dir {
        Err(OrganizerError::NotADirectory)
    } else if is_blocked_directory(path) {
        Err(OrganizerError::AccessDenied)
    } else {
        Ok(())
    }
}

/// How much of a (possibly clamped) size survives into a clip: the byte
/// count capped to the 32-bit range, zero when the metadata fetch failed.
pub open spec fn clamp_size(s: Option<u64>) -> u32 {
    match s {
        None => 0u32,
        Some(n) => if n > u32::MAX as u64 {
            u32::MAX
        } else {
            n as u32
        },
    }
}

/// The clip built for one eligible directory entry.
pub open spec fn clip_of_entry(dir: Seq<char>, e: DirEntryView) -> VideoClipView {
    VideoClipView {
        id: spec_join(dir, e.name),
        path: spec_join(dir, e.name),
        filename: e.name,
        size: clamp_size(e.size),
        format: match spec_file_name(e.name) {
            Some(f) => match spec_ext(f) {
                Some(e2) => spec_format(e2),
                None => Seq::<char>::empty(),
            },
            None => Seq::<char>::empty(),
        },
    }
}

/// A hidden entry: its name starts with a dot.
pub open spec fn is_hidden(name: Seq<char>) -> bool {
    name.len() > 0 && name[0] == '.'
}

/// An entry joins the catalog when it is a regular, non-hidden file with a
/// video extension; everything else is silently skipped. A dot-prefixed
/// name is hidden even when the rest of it carries a video extension.
pub open spec fn eligible(e: DirEntryView) -> bool {
    e.is_file && !is_hidden(e.name) && spec_has_video_extension(e.name)
}

/// The number of eligible entries in a listing.
pub open spec fn eligible_count(entries: Seq<DirEntryView>) -> nat
    decreases entries.len(),
{
    if entries.len() == 0 {
        0
    } else if eligible(entries.last()) {
        eligible_count(entries.drop_last()) + 1
    } else {
        eligible_count(entries.drop_last())
    }
}

/// The clips of the eligible entries, in listing order.
pub open spec fn catalog_of(dir: Seq<char>, entries: Seq<DirEntryView>) -> Seq<VideoClipView>
    decreases entries.len(),
{
    if entries.len() == 0 {
        Seq::<VideoClipView>::empty()
    } else if eligible(entries.last()) {
        catalog_of(dir, entries.drop_last()).push(clip_of_entry(dir, entries.last()))
    } else {
        catalog_of(dir, entries.drop_last())
    }
}

/// A scan of a listing with `N` eligible video files yields exactly `N`
/// clips, whatever the other entries are.
pub proof fn lemma_catalog_of_len(dir: Seq<char>, entries: Seq<DirEntryView>)
    ensures
        catalog_of(dir, entries).len() == eligible_count(entries),
    decreases entries.len(),
{
    if entries.len() > 0 {
        lemma_catalog_of_len(dir, entries.drop_last());
    }
}

/// The views of a vector of clips.
pub open spec fn clip_views(s: Seq<VideoClip>) -> Seq<VideoClipView> {
    s.map_values(|c: VideoClip| c@)
}

/// The views of a vector of entries.
pub open spec fn entry_views(s: Seq<DirEntry>) -> Seq<DirEntryView> {
    s.map_values(|e: DirEntry| e@)
}

/// Lexicographic order on character sequences, the byte/codepoint order the
/// catalog is sorted by.
pub open spec fn lex_le(a: Seq<char>, b: Seq<char>) -> bool
    decreases a.len(),
{
    if a.len() == 0 {
        true
    } else if b.len() == 0 {
        false
    } else if a[0] != b[0] {
        a[0] < b[0]
    } else {
        lex_le(a.drop_first(), b.drop_first())
    }
}

/// The order is total.
pub proof fn lemma_lex_le_total(a: Seq<char>, b: Seq<char>)
    ensures
        lex_le(a, b) || lex_le(b, a),
    decreases a.len(),
{
    if a.len() > 0 && b.len() > 0 && a[0] == b[0] {
        lemma_lex_le_total(a.drop_first(), b.drop_first());
    }
}

/// The order is transitive.
pub proof fn lemma_lex_le_trans(a: Seq<char>, b: Seq<char>, c: Seq<char>)
    requires
        lex_le(a, b),
        lex_le(b, c),
    ensures
        lex_le(a, c),
    decreases a.len(),
{
    if a.len() > 0 && b.len() > 0 && c.len() > 0 && a[0] == b[0] && b[0] == c[0] {
        lemma_lex_le_trans(a.drop_first(), b.drop_first(), c.drop_first());
    }
}

/// Equal prefixes do not decide the order.
proof fn lemma_lex_le_skip(a: Seq<char>, b: Seq<char>, i: int)
    requires
        0 <= i <= a.len(),
        i <= b.len(),
        forall|k: int| 0 <= k < i ==> a[k] == b[k],
    ensures
        lex_le(a, b) == lex_le(a.skip(i), b.skip(i)),
    decreases i,
{
    if i == 0 {
        assert(a.skip(0) =~= a);
        assert(b.skip(0) =~= b);
    } else {
        assert(a.drop_first() =~= a.skip(1));
        assert(b.drop_first() =~= b.skip(1));
        lemma_lex_le_skip(a.drop_first(), b.drop_first(), i - 1);
        assert(a.drop_first().skip(i - 1) =~= a.skip(i));
        assert(b.drop_first().skip(i - 1) =~= b.skip(i));
    }
}

/// Lexicographic comparison of two strings.
pub fn str_le(a: &str, b: &str) -> (r: bool)
    ensures
        r == lex_le(a@, b@),
{
    let an = a.unicode_len();
    let bn = b.unicode_len();
    let mut i: usize = 0;
    while i < an && i < bn
        invariant
            i <= an == a@.len(),
            i <= bn == b@.len(),
            forall|k: int| 0 <= k < i ==> a@[k] == b@[k],
        decreases an - i,
    {
        let ca = a.get_char(i);
        let cb = b.get_char(i);
        if ca != cb {
            proof {
                lemma_lex_le_skip(a@, b@, i as int);
                assert(a@.skip(i as int)[0] == ca);
                assert(b@.skip(i as int)[0] == cb);
            }
            return ca < cb;
        }
        i = i + 1;
    }
    proof {
        lemma_lex_le_skip(a@, b@, i as int);
    }
    if i == an {
        assert(a@.skip(i as int).len() == 0);
        true
    } else {
        assert(b@.skip(i as int).len() == 0);
        assert(a@.skip(i as int).len() > 0);
        false
    }
}

/// The catalog order: filenames ascending.
pub open spec fn sorted_by_filename(s: Seq<VideoClipView>) -> bool {
    forall|i: int, j: int|
        0 <= i < j < s.len() ==> lex_le(#[trigger] s[i].filename, #[trigger] s[j].filename)
}

/// Sorts a catalog by filename, ascending. The result is the same multiset
/// of clips, in sorted order.
pub fn sort_catalog(clips: Vec<VideoClip>) -> (r: Vec<VideoClip>)
    ensures
        clip_views(r@).to_multiset() == clip_views(clips@).to_multiset(),
        sorted_by_filename(clip_views(r@)),
{
    broadcast use group_to_multiset_ensures;

    let mut rem = clips;
    let mut out: Vec<VideoClip> = Vec::new();
    proof {
        assert(clip_views(out@) =~= Seq::<VideoClipView>::empty());
        assert(forall|x: VideoClipView| clip_views(out@).to_multiset().count(x) == 0);
        assert(clip_views(out@).to_multiset().add(clip_views(rem@).to_multiset()) =~= clip_views(
            clips@,
        ).to_multiset());
    }
    while rem.len() > 0
        invariant
            clip_views(out@).to_multiset().add(clip_views(rem@).to_multiset()) == clip_views(
                clips@,
            ).to_multiset(),
            sorted_by_filename(clip_views(out@)),
            forall|i: int, j: int|
                0 <= i < out@.len() && 0 <= j < rem@.len() ==> lex_le(
                    #[trigger] out@[i]@.filename,
                    #[trigger] rem@[j]@.filename,
                ),
        decreases rem.len(),
    {
        let mut m: usize = 0;
        let mut j: usize = 1;
        proof {
            lemma_lex_le_total(rem@[0]@.filename, rem@[0]@.filename);
        }
        while j < rem.len()
            invariant
                m < j <= rem@.len(),
                forall|k: int| 0 <= k < j ==> lex_le(rem@[m as int]@.filename, #[trigger] rem@[k]@.filename),
            decreases rem@.len() - j,
        {
            if str_le(&rem[j].filename, &rem[m].filename) {
                proof {
                    assert forall|k: int| 0 <= k < j + 1 implies lex_le(
                        rem@[j as int]@.filename,
                        rem@[k]@.filename,
                    ) by {
                        if k < j {
                            lemma_lex_le_trans(
                                rem@[j as int]@.filename,
                                rem@[m as int]@.filename,
                                rem@[k]@.filename,
                            );
                        } else {
                            lemma_lex_le_total(rem@[j as int]@.filename, rem@[j as int]@.filename);
                        }
                    }
                }
                m = j;
            } else {
                proof {
                    lemma_lex_le_total(rem@[m as int]@.filename, rem@[j as int]@.filename);
                }
            }
            j = j + 1;
        }
        let ghost old_rem = rem@;
        let ghost old_out = out@;
        let x = rem.remove(m);
        out.push(x);
        proof {
            broadcast use group_to_multiset_ensures, vstd::multiset::group_multiset_axioms;

            assert(clip_views(old_rem).remove(m as int) =~= clip_views(rem@));
            assert(clip_views(out@) =~= clip_views(old_out).push(x@));
            assert(clip_views(old_rem)[m as int] == x@);
            assert(clip_views(old_rem).contains(x@));
            assert(clip_views(old_rem).to_multiset().count(x@) > 0);
            assert(clip_views(out@).to_multiset().add(clip_views(rem@).to_multiset()) =~= clip_views(
                old_out,
            ).to_multiset().add(clip_views(old_rem).to_multiset()));
            assert forall|i: int, j2: int|
                0 <= i < out@.len() && 0 <= j2 < rem@.len() implies lex_le(
                out@[i]@.filename,
                rem@[j2]@.filename,
            ) by {
                if i < old_out.len() {
                    if j2 < m {
                        assert(rem@[j2]@ == old_rem[j2]@);
                    } else {
                        assert(rem@[j2]@ == old_rem[j2 + 1]@);
                    }
                } else {
                    assert(out@[i]@ == x@);
                    if j2 < m {
                        assert(rem@[j2]@ == old_rem[j2]@);
                    } else {
                        assert(rem@[j2]@ == old_rem[j2 + 1]@);
                    }
                }
            }
            assert(sorted_by_filename(clip_views(out@)));
        }
    }
    proof {
        assert(clip_views(rem@) =~= Seq::<VideoClipView>::empty());
        assert(forall|x: VideoClipView| clip_views(rem@).to_multiset().count(x) == 0);
        assert(clip_views(out@).to_multiset() =~= clip_views(out@).to_multiset().add(
            clip_views(rem@).to_multiset(),
        ));
    }
    out
}

/// Builds the catalog for one directory listing: every regular, non-hidden
/// file whose extension is, case-insensitively, `mp4` or `mov` becomes a
/// clip; hidden (dot-prefixed) entries and all other entries are silently
/// skipped; the result is sorted by filename, ascending.
pub fn build_catalog(dir: &str, entries: &Vec<DirEntry>) -> (r: Vec<VideoClip>)
    ensures
        clip_views(r@).to_multiset() == catalog_of(dir@, entry_views(entries@)).to_multiset(),
        sorted_by_filename(clip_views(r@)),
        r@.len() == eligible_count(entry_views(entries@)),
{
    let mut built: Vec<VideoClip> = Vec::new();
    let mut i: usize = 0;
    proof {
        assert(entry_views(entries@).take(0) =~= Seq::<DirEntryView>::empty());
        assert(clip_views(built@) =~= catalog_of(dir@, entry_views(entries@).take(0)));
    }
    while i < entries.len()
        invariant
            i <= entries@.len(),
            clip_views(built@) == catalog_of(dir@, entry_views(entries@).take(i as int)),
        decreases entries@.len() - i,
    {
        let e = &entries[i];
        let ghost old_built = built@;
        let hidden = e.name.as_str().unicode_len() > 0 && e.name.as_str().get_char(0) == '.';
        if e.is_file && !hidden {
            match video_format_of(&e.name) {
                Some(format) => {
                    let p = join_path(dir, &e.name);
                    let id = p.clone();
                    let size: u32 = match e.size {
                        Some(n) => {
                            if n > 0xFFFF_FFFFu64 {
                                u32::MAX
                            } else {
                                n as u32
                            }
                        },
                        None => 0u32,
                    };
                    let clip = VideoClip {
                        id,
                        path: p,
                        filename: e.name.clone(),
                        size,
                        format,
                    };
                    proof {
                        assert(clip@ == clip_of_entry(dir@, entries@[i as int]@));
                    }
                    built.push(clip);
                },
                None => {},
            }
        }
        proof {
            let evs = entry_views(entries@);
            assert(evs.take(i + 1).drop_last() =~= evs.take(i as int));
            assert(evs.take(i + 1).last() == entries@[i as int]@);
            if eligible(entries@[i as int]@) {
                assert(clip_views(built@) =~= clip_views(old_built).push(
                    clip_of_entry(dir@, entries@[i as int]@),
                ));
            } else {
                assert(clip_views(built@) =~= clip_views(old_built));
            }
        }
        i = i + 1;
    }
    proof {
        assert(entry_views(entries@).take(entries@.len() as int) =~= entry_views(entries@));
    }
    let sorted = sort_catalog(built);
    proof {
        broadcast use group_to_multiset_ensures;

        lemma_catalog_of_len(dir@, entry_views(entries@));
        assert(clip_views(sorted@).to_multiset().len() == catalog_of(
            dir@,
            entry_views(entries@),
        ).to_multiset().len());
    }
    sorted
}

} // verus!
