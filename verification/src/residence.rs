//! Where a bundle resides while its steps are carried out.
//!
//! The repository keeps no list of its bundles: a bundle is where its
//! directory is. This module says what a step that has succeeded does to the
//! directories that stand, and when a step cannot be carried out. It proves
//! from that that a bundle passes through the partitions one at a time and
//! never stands in two of them, and that of two transitions of one bundle
//! only one succeeds.

use vstd::prelude::*;

use crate::error::{FaultKind, IoFault, RepositoryError};
use crate::layout::{
    lemma_bundle_below_partition, lemma_bundles_apart, partition_path, Partition,
};
use crate::repository::{relocation, removal, BundleView};
use crate::request::{failure, RequestView};

verus! {

/// The directories that stand once a step has succeeded, given those that
/// stood before it. Only the paths that the step names are accounted for:
/// what lies below a directory moves and goes with it.
pub open spec fn after(dirs: Set<Seq<char>>, step: RequestView) -> Set<Seq<char>> {
    match step {
        RequestView::CreateDirAll { path } => dirs.insert(path),
        RequestView::Rename { from, to } => dirs.remove(from).insert(to),
        RequestView::RemoveDirAll { path } => dirs.remove(path),
        _ => dirs,
    }
}

/// Why a step cannot be carried out on the directories that stand, if it
/// cannot: a move needs its source and a free target, a removal needs what
/// it removes. Creating a directory and looking are always possible.
pub open spec fn refusal(dirs: Set<Seq<char>>, step: RequestView) -> Option<FaultKind> {
    match step {
        RequestView::Rename { from, to } => if !dirs.contains(from) {
            Some(FaultKind::NotFound)
        } else if dirs.contains(to) {
            Some(FaultKind::AlreadyExists)
        } else {
            None
        },
        RequestView::RemoveDirAll { path } => if !dirs.contains(path) {
            Some(FaultKind::NotFound)
        } else {
            None
        },
        _ => None,
    }
}

/// The first step that cannot be carried out when the steps are taken in
/// order, counted from `at`, with the reason; none if all of them can.
pub open spec fn first_refusal(dirs: Set<Seq<char>>, steps: Seq<RequestView>, at: int) -> Option<
    (int, FaultKind),
>
    decreases steps.len(),
{
    if steps.len() == 0 {
        None
    } else {
        match refusal(dirs, steps[0]) {
            Some(kind) => Some((at, kind)),
            None => first_refusal(after(dirs, steps[0]), steps.drop_first(), at + 1),
        }
    }
}

/// The directories that stand once all the steps have succeeded in order.
pub open spec fn after_all(dirs: Set<Seq<char>>, steps: Seq<RequestView>) -> Set<Seq<char>>
    decreases steps.len(),
{
    if steps.len() == 0 {
        dirs
    } else {
        after_all(after(dirs, steps[0]), steps.drop_first())
    }
}

/// The bundle's directory stands in the partition that the view names.
pub open spec fn resides(dirs: Set<Seq<char>>, bundle: BundleView) -> bool {
    dirs.contains(bundle.path())
}

/// The bundle's directory stands in no partition.
pub open spec fn resides_nowhere(dirs: Set<Seq<char>>, bundle: BundleView) -> bool {
    forall|p: Partition| !resides(dirs, #[trigger] bundle.moved_to(p))
}

/// The bundle's directory stands in the partition that the view names and in
/// no other.
pub open spec fn resides_only(dirs: Set<Seq<char>>, bundle: BundleView) -> bool {
    forall|p: Partition| resides(dirs, #[trigger] bundle.moved_to(p)) <==> p == bundle.partition
}

/// The step of staging puts a bundle that stood nowhere into staging and
/// nowhere else.
pub proof fn lemma_stage_places(dirs: Set<Seq<char>>, staged: BundleView)
    requires
        staged.wf(),
        staged.partition == Partition::Staging,
        resides_nowhere(dirs, staged),
    ensures
        resides_only(
            after_all(dirs, seq![RequestView::CreateDirAll { path: staged.path() }]),
            staged,
        ),
{
    let steps = seq![RequestView::CreateDirAll { path: staged.path() }];
    reveal_with_fuel(after_all, 2);
    assert(steps.drop_first().len() == 0);
    let done = after_all(dirs, steps);
    assert(done == dirs.insert(staged.path()));
    assert forall|p: Partition| resides(done, #[trigger] staged.moved_to(p)) <==> p
        == staged.partition by {
        if p != staged.partition {
            lemma_bundles_apart(staged.root, p, staged.name(), staged.partition, staged.name());
            assert(!resides(dirs, staged.moved_to(p)));
        } else {
            assert(staged.moved_to(p) == staged);
        }
    }
}

/// The steps of a transition take a bundle that stands in one partition only
/// to the partition it moves to, where it again stands in one partition only:
/// at no point of a commit or an archiving does the bundle stand in two.
pub proof fn lemma_transition_moves(dirs: Set<Seq<char>>, bundle: BundleView, to: Partition)
    requires
        bundle.wf(),
        resides_only(dirs, bundle),
    ensures
        resides_only(after(dirs, relocation(bundle, to)[0]), bundle),
        resides_only(after_all(dirs, relocation(bundle, to)), bundle.moved_to(to)),
{
    let steps = relocation(bundle, to);
    let moved = bundle.moved_to(to);
    reveal_with_fuel(after_all, 3);
    assert(steps.drop_first() =~= seq![steps[1]]);
    assert(steps.drop_first().drop_first().len() == 0);
    let prepared = after(dirs, steps[0]);
    let done = after_all(dirs, steps);
    assert(prepared == dirs.insert(partition_path(bundle.root, to)));
    assert(done == prepared.remove(bundle.path()).insert(moved.path()));
    assert forall|p: Partition| resides(prepared, #[trigger] bundle.moved_to(p)) <==> p
        == bundle.partition by {
        lemma_bundle_below_partition(bundle.root, p, bundle.name(), to);
        assert(resides(dirs, bundle.moved_to(p)) <==> p == bundle.partition);
    }
    assert forall|p: Partition| resides(done, #[trigger] moved.moved_to(p)) <==> p
        == moved.partition by {
        assert(moved.moved_to(p) == bundle.moved_to(p));
        assert(resides(prepared, bundle.moved_to(p)) <==> p == bundle.partition);
        assert(bundle.moved_to(bundle.partition) == bundle);
        if p != to {
            lemma_bundles_apart(bundle.root, p, bundle.name(), to, bundle.name());
        }
        if p != bundle.partition {
            lemma_bundles_apart(
                bundle.root,
                p,
                bundle.name(),
                bundle.partition,
                bundle.name(),
            );
        }
    }
}

/// The step of a removal leaves a bundle that stood in one partition only
/// standing in none: after it a lookup in any partition finds nothing.
pub proof fn lemma_removal_clears(dirs: Set<Seq<char>>, bundle: BundleView)
    requires
        bundle.wf(),
        resides_only(dirs, bundle),
    ensures
        resides_nowhere(after_all(dirs, removal(bundle)), bundle),
{
    let steps = removal(bundle);
    reveal_with_fuel(after_all, 2);
    assert(steps.drop_first().len() == 0);
    let done = after_all(dirs, steps);
    assert(done == dirs.remove(bundle.path()));
    assert forall|p: Partition| !resides(done, #[trigger] bundle.moved_to(p)) by {
        assert(resides(dirs, bundle.moved_to(p)) <==> p == bundle.partition);
        if p == bundle.partition {
            assert(bundle.moved_to(p) == bundle);
        }
    }
}

/// A transition of a bundle that stands where its handle says, and nowhere
/// else, can be carried out. Carried out a second time, from a second handle
/// on the same bundle, it fails at the move, and the error is `NotFound`: of
/// two commits or two archivings of one bundle, one succeeds.
pub proof fn lemma_transition_once(
    dirs: Set<Seq<char>>,
    bundle: BundleView,
    to: Partition,
    fault: IoFault,
)
    requires
        bundle.wf(),
        resides_only(dirs, bundle),
        to != bundle.partition,
        fault.kind == FaultKind::NotFound,
    ensures
        first_refusal(dirs, relocation(bundle, to), 0) is None,
        first_refusal(after_all(dirs, relocation(bundle, to)), relocation(bundle, to), 0) == Some(
            (1int, FaultKind::NotFound),
        ),
        failure(relocation(bundle, to)[1], fault) == RepositoryError::NotFound,
{
    let steps = relocation(bundle, to);
    let moved = bundle.moved_to(to);
    reveal_with_fuel(first_refusal, 3);
    reveal_with_fuel(after_all, 3);
    assert(steps.drop_first() =~= seq![steps[1]]);
    assert(steps.drop_first().drop_first().len() == 0);
    lemma_transition_moves(dirs, bundle, to);
    let prepared = after(dirs, steps[0]);
    assert(bundle.moved_to(bundle.partition) == bundle);
    assert(resides(prepared, bundle.moved_to(bundle.partition)));
    assert(!resides(prepared, bundle.moved_to(to)));
    let done = after_all(dirs, steps);
    assert(moved.moved_to(bundle.partition) == bundle);
    assert(!resides(done, moved.moved_to(bundle.partition)));
    lemma_bundle_below_partition(bundle.root, bundle.partition, bundle.name(), to);
    assert(!after(done, steps[0]).contains(bundle.path()));
}

/// A transition onto a name that the other partition already holds fails at
/// the move, and the error is `Conflict`; the bundle stays where it was.
pub proof fn lemma_transition_conflict(
    dirs: Set<Seq<char>>,
    bundle: BundleView,
    to: Partition,
    fault: IoFault,
)
    requires
        bundle.wf(),
        resides(dirs, bundle),
        resides(dirs, bundle.moved_to(to)),
        to != bundle.partition,
        fault.kind == FaultKind::AlreadyExists,
    ensures
        first_refusal(dirs, relocation(bundle, to), 0) == Some((1int, FaultKind::AlreadyExists)),
        failure(relocation(bundle, to)[1], fault) == RepositoryError::Conflict,
        resides(after(dirs, relocation(bundle, to)[0]), bundle),
{
    let steps = relocation(bundle, to);
    reveal_with_fuel(first_refusal, 3);
    assert(steps.drop_first() =~= seq![steps[1]]);
}

/// A removal of a bundle that stands where its handle says can be carried
/// out. Carried out a second time it fails, and the error is `NotFound`.
pub proof fn lemma_removal_once(dirs: Set<Seq<char>>, bundle: BundleView, fault: IoFault)
    requires
        resides(dirs, bundle),
        fault.kind == FaultKind::NotFound,
    ensures
        first_refusal(dirs, removal(bundle), 0) is None,
        first_refusal(after_all(dirs, removal(bundle)), removal(bundle), 0) == Some(
            (0int, FaultKind::NotFound),
        ),
        failure(removal(bundle)[0], fault) == RepositoryError::NotFound,
{
    let steps = removal(bundle);
    reveal_with_fuel(first_refusal, 2);
    reveal_with_fuel(after_all, 2);
    assert(steps.drop_first().len() == 0);
}

/// Bundles of different identifiers have different directories, in whatever
/// partitions they stand.
pub proof fn lemma_identifiers_apart(a: BundleView, b: BundleView)
    requires
        a.wf(),
        b.wf(),
        a.root == b.root,
        a.id != b.id,
    ensures
        a.path() != b.path(),
{
    assert(a.name() != b.name());
    lemma_bundles_apart(a.root, a.partition, a.name(), b.partition, b.name());
}

/// What is done to one bundle leaves every bundle of another identifier where
/// it is: neither a transition nor a removal touches its directory.
pub proof fn lemma_others_untouched(
    dirs: Set<Seq<char>>,
    bundle: BundleView,
    to: Partition,
    other: BundleView,
)
    requires
        bundle.wf(),
        other.wf(),
        bundle.root == other.root,
        bundle.id != other.id,
    ensures
        resides(after_all(dirs, relocation(bundle, to)), other) == resides(dirs, other),
        resides(after_all(dirs, removal(bundle)), other) == resides(dirs, other),
{
    reveal_with_fuel(after_all, 3);
    let steps = relocation(bundle, to);
    assert(steps.drop_first() =~= seq![steps[1]]);
    assert(steps.drop_first().drop_first().len() == 0);
    assert(removal(bundle).drop_first().len() == 0);
    lemma_identifiers_apart(bundle, other);
    lemma_identifiers_apart(bundle.moved_to(to), other);
    lemma_bundle_below_partition(other.root, other.partition, other.name(), to);
}

/// A bundle that is staged, committed and archived stands in staging, then
/// in the inbox, then in the archive, and at each point in that partition
/// only.
pub proof fn lemma_lifecycle(dirs: Set<Seq<char>>, staged: BundleView)
    requires
        staged.wf(),
        staged.partition == Partition::Staging,
        resides_nowhere(dirs, staged),
    ensures
        ({
            let inboxed = staged.moved_to(Partition::Inbox);
            let archived = inboxed.moved_to(Partition::Archive);
            let first = after_all(dirs, seq![RequestView::CreateDirAll { path: staged.path() }]);
            let second = after_all(first, relocation(staged, Partition::Inbox));
            let third = after_all(second, relocation(inboxed, Partition::Archive));
            &&& resides_only(first, staged)
            &&& resides_only(second, inboxed)
            &&& resides_only(third, archived)
        }),
{
    let inboxed = staged.moved_to(Partition::Inbox);
    let first = after_all(dirs, seq![RequestView::CreateDirAll { path: staged.path() }]);
    let second = after_all(first, relocation(staged, Partition::Inbox));
    lemma_stage_places(dirs, staged);
    lemma_transition_moves(first, staged, Partition::Inbox);
    lemma_transition_moves(second, inboxed, Partition::Archive);
}

} // verus!
