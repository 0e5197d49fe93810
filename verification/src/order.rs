//! The order of the flattened tree: stable, depth-first, pre-order.

use vstd::prelude::*;
use crate::mount_source::{entries_mounts, CustomDirEntryView, MountSourceView, MountView};
use crate::paths::joined;
use crate::resolver::{
    followed_by, lemma_virtual_files_concat, rest, scan_at, virtual_files, Resolved, ScanView,
};
use crate::virtual_file::{OutsideBaseView, VirtualFileView};

verus! {

/// The number of mounts that come before the subtree of entry `k` when a
/// directory with these entries is walked: the directory itself and the
/// subtrees of the entries before `k`.
pub open spec fn mounts_before(entries: Seq<CustomDirEntryView>, point: Seq<char>, k: int) -> int {
    1 + entries_mounts(entries.take(k), point).len() as int
}

/// The flattened subtree of entry `k` of a directory that is mounted at
/// `point`, where `scans` are the scans of the directory's whole walk.
pub open spec fn subtree(
    entries: Seq<CustomDirEntryView>,
    point: Seq<char>,
    scans: Seq<ScanView>,
    k: int,
) -> Resolved {
    virtual_files(
        entries[k].mount_source.mounts(joined(point, entries[k].name)),
        rest(scans, mounts_before(entries, point, k)),
    )
}

/// The number of virtual files that come before the subtree of entry `k`
/// in a flattened directory that could be resolved: the directory itself
/// and the subtrees of the entries before `k`.
pub open spec fn files_before(
    entries: Seq<CustomDirEntryView>,
    point: Seq<char>,
    scans: Seq<ScanView>,
    k: int,
) -> int
    decreases k,
{
    if k <= 0 {
        1
    } else {
        files_before(entries, point, scans, k - 1) + subtree(entries, point, scans, k - 1)->Ok_0.len()
    }
}

/// The directory itself as a mount.
spec fn own(entries: Seq<CustomDirEntryView>, point: Seq<char>) -> Seq<MountView> {
    seq![MountView { point, source: MountSourceView::CustomDir(entries) }]
}

/// The directory and its first `k` entries, flattened.
spec fn up_to(
    entries: Seq<CustomDirEntryView>,
    point: Seq<char>,
    scans: Seq<ScanView>,
    k: int,
) -> Resolved {
    virtual_files(own(entries, point) + entries_mounts(entries.take(k), point), scans)
}

proof fn lemma_step(
    entries: Seq<CustomDirEntryView>,
    point: Seq<char>,
    scans: Seq<ScanView>,
    k: int,
)
    requires
        0 <= k < entries.len(),
    ensures
        up_to(entries, point, scans, k + 1) == followed_by(
            up_to(entries, point, scans, k),
            subtree(entries, point, scans, k),
        ),
{
    let before = own(entries, point) + entries_mounts(entries.take(k), point);
    let below = entries[k].mount_source.mounts(joined(point, entries[k].name));
    assert(entries.take(k + 1).drop_last() =~= entries.take(k));
    assert(entries.take(k + 1).last() == entries[k]);
    assert(entries_mounts(entries.take(k + 1), point) == entries_mounts(entries.take(k), point)
        + below);
    assert(own(entries, point) + entries_mounts(entries.take(k + 1), point) =~= before + below);
    lemma_virtual_files_concat(before, below, scans);
}

proof fn lemma_first(entries: Seq<CustomDirEntryView>, point: Seq<char>, scans: Seq<ScanView>)
    ensures
        virtual_files(own(entries, point), scans) == Ok::<_, OutsideBaseView>(
            seq![VirtualFileView::dir(point)],
        ),
        up_to(entries, point, scans, 0) == Ok::<_, OutsideBaseView>(
            seq![VirtualFileView::dir(point)],
        ),
{
    let alone = own(entries, point);
    assert(alone.drop_last() =~= Seq::empty());
    assert(virtual_files(alone.drop_last(), scans) == Ok::<_, OutsideBaseView>(
        Seq::<VirtualFileView>::empty(),
    ));
    assert(alone.last().source.resolved(point, scan_at(scans, 0)) == Ok::<_, OutsideBaseView>(
        seq![VirtualFileView::dir(point)],
    ));
    assert(Seq::<VirtualFileView>::empty() + seq![VirtualFileView::dir(point)] =~= seq![
        VirtualFileView::dir(point),
    ]);
    assert(entries.take(0) =~= Seq::empty());
    assert(alone + entries_mounts(entries.take(0), point) =~= alone);
}

proof fn lemma_parts(
    entries: Seq<CustomDirEntryView>,
    point: Seq<char>,
    scans: Seq<ScanView>,
    k: int,
    m: int,
)
    requires
        0 <= k <= m <= entries.len(),
        up_to(entries, point, scans, m) is Ok,
    ensures
        up_to(entries, point, scans, k) is Ok,
        up_to(entries, point, scans, k)->Ok_0.len() <= up_to(entries, point, scans, m)->Ok_0.len(),
        up_to(entries, point, scans, k)->Ok_0 == up_to(entries, point, scans, m)->Ok_0.take(
            up_to(entries, point, scans, k)->Ok_0.len() as int,
        ),
    decreases m - k,
{
    if k == m {
        assert(up_to(entries, point, scans, m)->Ok_0.take(
            up_to(entries, point, scans, k)->Ok_0.len() as int,
        ) =~= up_to(entries, point, scans, k)->Ok_0);
    } else {
        lemma_step(entries, point, scans, m - 1);
        lemma_parts(entries, point, scans, k, m - 1);
        assert(up_to(entries, point, scans, m)->Ok_0.take(
            up_to(entries, point, scans, k)->Ok_0.len() as int,
        ) =~= up_to(entries, point, scans, k)->Ok_0);
    }
}

proof fn lemma_len(
    entries: Seq<CustomDirEntryView>,
    point: Seq<char>,
    scans: Seq<ScanView>,
    k: int,
)
    requires
        0 <= k <= entries.len(),
        up_to(entries, point, scans, k) is Ok,
    ensures
        up_to(entries, point, scans, k)->Ok_0.len() == files_before(entries, point, scans, k),
    decreases k,
{
    if k == 0 {
        lemma_first(entries, point, scans);
    } else {
        lemma_step(entries, point, scans, k - 1);
        lemma_len(entries, point, scans, k - 1);
    }
}

/// The subtree of entry `k` is the run of the flattened directory that
/// begins behind the directory itself and the subtrees before it.
proof fn lemma_subtree_is_a_run(
    entries: Seq<CustomDirEntryView>,
    point: Seq<char>,
    scans: Seq<ScanView>,
    k: int,
)
    requires
        0 <= k < entries.len(),
        up_to(entries, point, scans, entries.len() as int) is Ok,
    ensures
        subtree(entries, point, scans, k) is Ok,
        ({
            let all = up_to(entries, point, scans, entries.len() as int)->Ok_0;
            let at = files_before(entries, point, scans, k);
            let of = subtree(entries, point, scans, k)->Ok_0;
            &&& 1 <= at
            &&& at + of.len() <= all.len()
            &&& all.subrange(at, at + of.len()) == of
        }),
{
    let n = entries.len() as int;
    let all = up_to(entries, point, scans, n)->Ok_0;
    lemma_parts(entries, point, scans, k + 1, n);
    lemma_step(entries, point, scans, k);
    lemma_len(entries, point, scans, k);
    let before = up_to(entries, point, scans, k)->Ok_0;
    let with = up_to(entries, point, scans, k + 1)->Ok_0;
    let of = subtree(entries, point, scans, k)->Ok_0;
    let from = before.len() as int;
    let to = from + of.len() as int;
    assert(with == before + of);
    assert(with.subrange(from, to) =~= of);
    assert(all.subrange(from, to) =~= all.take(with.len() as int).subrange(from, to));
    lemma_first(entries, point, scans);
    lemma_parts(entries, point, scans, 0, k);
}

/// A custom directory flattens into the directory itself, at its mount
/// point, followed by what its entries flatten into.
pub proof fn lemma_custom_dir_comes_first(
    entries: Seq<CustomDirEntryView>,
    point: Seq<char>,
    scans: Seq<ScanView>,
)
    ensures
        virtual_files(MountSourceView::CustomDir(entries).mounts(point), scans) == followed_by(
            Ok(seq![VirtualFileView::dir(point)]),
            virtual_files(entries_mounts(entries, point), rest(scans, 1)),
        ),
{
    lemma_virtual_files_concat(own(entries, point), entries_mounts(entries, point), scans);
    lemma_first(entries, point, scans);
}

/// The flattened sequence of a custom directory lists the subtree of each
/// entry as one unbroken run, and the runs in the order of the entries: for
/// entries `i` before `j`, the whole subtree of `i` comes before the whole
/// subtree of `j`, and both behind the directory itself.
pub proof fn lemma_subtrees_in_entry_order(
    entries: Seq<CustomDirEntryView>,
    point: Seq<char>,
    scans: Seq<ScanView>,
    i: int,
    j: int,
)
    requires
        0 <= i < j < entries.len(),
        virtual_files(MountSourceView::CustomDir(entries).mounts(point), scans) is Ok,
    ensures
        subtree(entries, point, scans, i) is Ok,
        subtree(entries, point, scans, j) is Ok,
        ({
            let all = virtual_files(MountSourceView::CustomDir(entries).mounts(point), scans)->Ok_0;
            let at_i = files_before(entries, point, scans, i);
            let at_j = files_before(entries, point, scans, j);
            let of_i = subtree(entries, point, scans, i)->Ok_0;
            let of_j = subtree(entries, point, scans, j)->Ok_0;
            &&& 1 <= at_i
            &&& at_i + of_i.len() <= at_j
            &&& at_j + of_j.len() <= all.len()
            &&& all.subrange(at_i, at_i + of_i.len()) == of_i
            &&& all.subrange(at_j, at_j + of_j.len()) == of_j
        }),
{
    let n = entries.len() as int;
    assert(entries.take(n) =~= entries);
    assert(MountSourceView::CustomDir(entries).mounts(point) == own(entries, point)
        + entries_mounts(entries, point));
    lemma_subtree_is_a_run(entries, point, scans, i);
    lemma_subtree_is_a_run(entries, point, scans, j);
    lemma_parts(entries, point, scans, j, n);
    lemma_parts(entries, point, scans, i + 1, j);
    lemma_len(entries, point, scans, i + 1);
    lemma_len(entries, point, scans, j);
    lemma_step(entries, point, scans, i);
}

} // verus!
