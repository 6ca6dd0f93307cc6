//! Which entries of a component's archive are written, and where.
//!
//! An entry's path is a string of bytes in which `/` separates segments. The
//! first segment names the archive's top-level directory, the second the
//! subtree that the entry belongs to; what follows is the entry's place
//! below the installation root.

use vstd::prelude::*;
use vstd::string::StringSliceAdditionalSpecFns;

verus! {

/// The byte that separates the segments of an entry's path: `/`.
pub const SEPARATOR: u8 = 0x2f;

/// The byte `.`; a segment made of it alone stands for "the same directory".
pub const DOT: u8 = 0x2e;

/// The name of the install manifest, `manifest.in`, as bytes.
pub open spec fn manifest_name() -> Seq<u8> {
    seq![0x6du8, 0x61u8, 0x6eu8, 0x69u8, 0x66u8, 0x65u8, 0x73u8, 0x74u8, 0x2eu8, 0x69u8, 0x6eu8]
}

/// The segment that a finished run of bytes contributes: none when the run
/// is empty or is `.`, else the run itself.
pub open spec fn finished(run: Seq<u8>) -> Seq<Seq<u8>> {
    if run.len() == 0 || run == seq![DOT] {
        Seq::empty()
    } else {
        seq![run]
    }
}

/// The segments of `rest`, read after the bytes `run` of a segment that is
/// still open.
pub open spec fn scan(rest: Seq<u8>, run: Seq<u8>) -> Seq<Seq<u8>>
    decreases rest.len(),
{
    if rest.len() == 0 {
        finished(run)
    } else if rest[0] == SEPARATOR {
        finished(run) + scan(rest.skip(1), Seq::empty())
    } else {
        scan(rest.skip(1), run.push(rest[0]))
    }
}

/// The segment that the start of a path contributes by itself: `/` for a
/// path that begins at the root, `.` for one that is `.` or begins with
/// `./`, none otherwise.
pub open spec fn leading(path: Seq<u8>) -> Seq<Seq<u8>> {
    if path.len() > 0 && path[0] == SEPARATOR {
        seq![seq![SEPARATOR]]
    } else if path.len() > 0 && path[0] == DOT && (path.len() == 1 || path[1] == SEPARATOR) {
        seq![seq![DOT]]
    } else {
        Seq::empty()
    }
}

/// The segments of a path: its leading segment, if any, then every maximal
/// run of bytes other than `/` that is neither empty nor `.`.
pub open spec fn segments(path: Seq<u8>) -> Seq<Seq<u8>> {
    leading(path) + scan(path, Seq::empty())
}

/// Where an entry with these segments goes for the component whose subtree
/// is `subtree`: the segments after the first two, unless the entry lies
/// outside the subtree or is the subtree's install manifest.
pub open spec fn destination(segs: Seq<Seq<u8>>, subtree: Seq<u8>) -> Option<Seq<Seq<u8>>> {
    if segs.len() >= 2 && segs[1] == subtree && segs.skip(2) != seq![manifest_name()] {
        Some(segs.skip(2))
    } else {
        None
    }
}

/// The byte strings that a vector of segments holds.
pub open spec fn views(segs: Seq<Vec<u8>>) -> Seq<Seq<u8>> {
    Seq::new(segs.len(), |i: int| segs[i]@)
}

/// What an archive entry is: a directory, or anything that is unpacked as a
/// file.
#[derive(Clone, Copy, Debug, PartialEq, Eq, Structural)]
pub enum EntryKind {
    Directory,
    File,
}

/// What is done with one archive entry. A destination is given as the
/// segments to join to the installation root, in order.
#[derive(Clone, Debug, PartialEq, Eq)]
pub enum EntryAction {
    /// The entry is not written.
    Skip,
    /// The directory is created; that it exists already is no error.
    CreateDir(Vec<Vec<u8>>),
    /// The entry's content and permissions are written to the file.
    Unpack(Vec<Vec<u8>>),
}

/// An `EntryAction` with its destination as byte strings.
pub enum Plan {
    Skip,
    CreateDir(Seq<Seq<u8>>),
    Unpack(Seq<Seq<u8>>),
}

impl View for EntryAction {
    type V = Plan;

    open spec fn view(&self) -> Plan {
        match self {
            EntryAction::Skip => Plan::Skip,
            EntryAction::CreateDir(d) => Plan::CreateDir(views(d@)),
            EntryAction::Unpack(d) => Plan::Unpack(views(d@)),
        }
    }
}

/// The plan for an entry with path `path` and kind `kind`, for the
/// component whose subtree is `subtree`.
pub open spec fn planned(path: Seq<u8>, kind: EntryKind, subtree: Seq<u8>) -> Plan {
    match destination(segments(path), subtree) {
        None => Plan::Skip,
        Some(d) => match kind {
            EntryKind::Directory => Plan::CreateDir(d),
            EntryKind::File => Plan::Unpack(d),
        },
    }
}

/// Whether two byte strings are equal.
pub fn bytes_eq(a: &[u8], b: &[u8]) -> (eq: bool)
    ensures
        eq == (a@ == b@),
{
    if a.len() != b.len() {
        return false;
    }
    let mut i: usize = 0;
    while i < a.len()
        invariant
            i <= a@.len(),
            a@.len() == b@.len(),
            forall|k: int| 0 <= k < i ==> a@[k] == b@[k],
        decreases a@.len() - i,
    {
        if a[i] != b[i] {
            return false;
        }
        i += 1;
    }
    assert(a@ =~= b@);
    true
}

/// Adds the segment that the finished run `run` contributes, if any.
fn close_run(out: &mut Vec<Vec<u8>>, run: Vec<u8>)
    ensures
        views(final(out)@) == views(old(out)@) + finished(run@),
{
    if run.len() == 0 || (run.len() == 1 && run[0] == DOT) {
        assert(run@.len() == 1 && run@[0] == DOT ==> run@ =~= seq![DOT]);
    } else {
        assert(run@ != seq![DOT]);
        out.push(run);
    }
}

/// Splits an entry's path into its segments.
pub fn split_path(path: &[u8]) -> (segs: Vec<Vec<u8>>)
    ensures
        views(segs@) == segments(path@),
{
    let n: usize = path.len();
    let mut out: Vec<Vec<u8>> = Vec::new();
    if n > 0 && path[0] == SEPARATOR {
        let mut root: Vec<u8> = Vec::new();
        root.push(SEPARATOR);
        out.push(root);
    } else if n > 0 && path[0] == DOT && (n == 1 || path[1] == SEPARATOR) {
        let mut here: Vec<u8> = Vec::new();
        here.push(DOT);
        out.push(here);
    }
    let mut run: Vec<u8> = Vec::new();
    let mut i: usize = 0;
    assert(path@.skip(0) =~= path@);
    while i < n
        invariant
            i <= n,
            n == path@.len(),
            views(out@) + scan(path@.skip(i as int), run@) == segments(path@),
        decreases n - i,
    {
        let b: u8 = path[i];
        let ghost rest = path@.skip(i as int);
        assert(rest.skip(1) =~= path@.skip(i + 1));
        if b == SEPARATOR {
            close_run(&mut out, run);
            run = Vec::new();
        } else {
            run.push(b);
        }
        i += 1;
    }
    close_run(&mut out, run);
    out
}

/// Whether a segment is the name of the install manifest.
pub fn is_manifest_name(seg: &[u8]) -> (yes: bool)
    ensures
        yes == (seg@ == manifest_name()),
{
    let yes = seg.len() == 11 && seg[0] == 0x6d && seg[1] == 0x61 && seg[2] == 0x6e && seg[3]
        == 0x69 && seg[4] == 0x66 && seg[5] == 0x65 && seg[6] == 0x73 && seg[7] == 0x74 && seg[8]
        == 0x2e && seg[9] == 0x69 && seg[10] == 0x6e;
    proof {
        if yes {
            assert(seg@ =~= manifest_name());
        }
    }
    yes
}

/// Decides what is done with the entry whose path is `path`, for the
/// component whose subtree is named `subtree`: an entry outside the subtree
/// and the subtree's install manifest are skipped, every other entry goes
/// to the place that its segments after the first two give.
pub fn plan_entry(path: &[u8], kind: EntryKind, subtree: &str) -> (action: EntryAction)
    ensures
        action@ == planned(path@, kind, subtree.spec_bytes()),
{
    let mut segs = split_path(path);
    let ghost all = views(segs@);
    if segs.len() < 2 {
        return EntryAction::Skip;
    }
    if !bytes_eq(segs[1].as_slice(), subtree.as_bytes()) {
        return EntryAction::Skip;
    }
    if segs.len() == 3 {
        assert(all[2] == segs@[2]@);
        if is_manifest_name(segs[2].as_slice()) {
            assert(all.skip(2) =~= seq![manifest_name()]);
            return EntryAction::Skip;
        }
    }
    assert(all.skip(2) != seq![manifest_name()]) by {
        if all.skip(2) == seq![manifest_name()] {
            assert(all.skip(2)[0] == manifest_name());
        }
    }
    let dest = segs.split_off(2);
    assert(views(dest@) =~= all.skip(2));
    match kind {
        EntryKind::Directory => EntryAction::CreateDir(dest),
        EntryKind::File => EntryAction::Unpack(dest),
    }
}

/// An entry whose path has no second segment, or whose second segment is
/// not the component's subtree, is never written, whatever its kind.
pub proof fn lemma_outside_subtree_is_skipped(path: Seq<u8>, kind: EntryKind, subtree: Seq<u8>)
    requires
        segments(path).len() < 2 || segments(path)[1] != subtree,
    ensures
        planned(path, kind, subtree) is Skip,
{
}

/// The install manifest directly below a subtree is never written, whatever
/// the subtree and the entry's kind.
pub proof fn lemma_manifest_is_skipped(path: Seq<u8>, kind: EntryKind, subtree: Seq<u8>)
    requires
        segments(path).len() == 3,
        segments(path)[2] == manifest_name(),
    ensures
        planned(path, kind, subtree) is Skip,
{
    assert(segments(path).skip(2) =~= seq![manifest_name()]);
}

/// Every other entry of the subtree is written, a directory as a directory
/// and anything else as a file, to the place that its segments after the
/// first two give.
pub proof fn lemma_inside_subtree_is_written(path: Seq<u8>, kind: EntryKind, subtree: Seq<u8>)
    requires
        segments(path).len() >= 2,
        segments(path)[1] == subtree,
        !(segments(path).len() == 3 && segments(path)[2] == manifest_name()),
    ensures
        kind is Directory ==> planned(path, kind, subtree) == Plan::CreateDir(
            segments(path).skip(2),
        ),
        kind is File ==> planned(path, kind, subtree) == Plan::Unpack(segments(path).skip(2)),
{
    let rest = segments(path).skip(2);
    if rest == seq![manifest_name()] {
        assert(rest.len() == 1);
        assert(rest[0] == manifest_name());
    }
}

/// An entry belongs to one subtree at most: of two components with
/// different subtrees, no more than one writes it.
pub proof fn lemma_one_subtree_writes(
    path: Seq<u8>,
    kind: EntryKind,
    subtree: Seq<u8>,
    other: Seq<u8>,
)
    requires
        subtree != other,
    ensures
        planned(path, kind, subtree) is Skip || planned(path, kind, other) is Skip,
{
}

/// Whether a byte string can stand between two separators as a segment: it
/// is not empty, holds no separator and is not `.`.
pub open spec fn is_plain_segment(seg: Seq<u8>) -> bool {
    &&& seg.len() > 0
    &&& seg != seq![DOT]
    &&& forall|k: int| 0 <= k < seg.len() ==> seg[k] != SEPARATOR
}

proof fn lemma_scan_plain(rest: Seq<u8>, run: Seq<u8>)
    requires
        forall|k: int| 0 <= k < run.len() ==> run[k] != SEPARATOR,
    ensures
        forall|j: int|
            0 <= j < scan(rest, run).len() ==> is_plain_segment(#[trigger] scan(rest, run)[j]),
    decreases rest.len(),
{
    let head = finished(run);
    let all = scan(rest, run);
    if rest.len() == 0 {
        assert(all == head);
    } else if rest[0] == SEPARATOR {
        let tail = scan(rest.skip(1), Seq::empty());
        lemma_scan_plain(rest.skip(1), Seq::empty());
        assert forall|j: int| 0 <= j < all.len() implies is_plain_segment(#[trigger] all[j]) by {
            if j >= head.len() {
                assert(all[j] == tail[j - head.len()]);
            } else {
                assert(all[j] == head[j]);
            }
        }
    } else {
        lemma_scan_plain(rest.skip(1), run.push(rest[0]));
        assert(all == scan(rest.skip(1), run.push(rest[0])));
    }
}

/// But for the leading `/` or `.`, every segment of a path is a run of
/// bytes that is not empty, holds no separator and is not `.`.
pub proof fn lemma_segments_are_plain(path: Seq<u8>, j: int)
    requires
        leading(path).len() <= j < segments(path).len(),
    ensures
        is_plain_segment(segments(path)[j]),
{
    lemma_scan_plain(path, Seq::empty());
}

} // verus!
