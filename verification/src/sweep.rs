//! The sweeper: turning the matched files into per-file steps, a model of
//! what executing those steps does to the filesystem, and the summary of
//! per-file outcomes.

use vstd::prelude::*;

verus! {

/// How the sweep treats each matched file.
#[derive(Clone, Copy, Debug, PartialEq, Eq, Structural)]
pub enum SweepMode {
    /// Preview only: nothing on disk is touched.
    DryRun,
    /// Move each file to the host trash.
    Trash,
    /// Remove each file permanently.
    Permanent,
}

/// The action one sweep step performs on its file.
#[derive(Clone, Copy, Debug, PartialEq, Eq, Structural)]
pub enum FileAction {
    /// Leave the file as it is.
    Keep,
    /// Move the file to the host trash.
    MoveToTrash,
    /// Remove the file permanently.
    Remove,
}

/// One unit of sweep work: a file and what to do with it.
#[derive(Debug)]
pub struct SweepStep {
    pub path: String,
    pub action: FileAction,
}

/// The action that a mode prescribes for every file.
pub open spec fn action_for(mode: SweepMode) -> FileAction {
    match mode {
        SweepMode::DryRun => FileAction::Keep,
        SweepMode::Trash => FileAction::MoveToTrash,
        SweepMode::Permanent => FileAction::Remove,
    }
}

/// The action of the given mode.
pub fn mode_action(mode: &SweepMode) -> (a: FileAction)
    ensures
        a == action_for(*mode),
{
    match mode {
        SweepMode::DryRun => FileAction::Keep,
        SweepMode::Trash => FileAction::MoveToTrash,
        SweepMode::Permanent => FileAction::Remove,
    }
}

/// Lays out the sweep: one step per matched file, in order, each with the
/// mode's action.  Every file is its own unit of work — no step depends
/// on another, which is what lets one file's failure leave the rest of
/// the sweep untouched.
pub fn plan_sweep(matched: &Vec<String>, mode: &SweepMode) -> (plan: Vec<SweepStep>)
    ensures
        plan@.len() == matched@.len(),
        forall|i: int|
            0 <= i < plan@.len() ==> (#[trigger] plan@[i]).path@ == matched@[i]@
                && plan@[i].action == action_for(*mode),
{
    let mut plan: Vec<SweepStep> = Vec::new();
    let mut i: usize = 0;
    while i < matched.len()
        invariant
            i <= matched@.len(),
            plan@.len() == i,
            forall|j: int|
                0 <= j < i ==> (#[trigger] plan@[j]).path@ == matched@[j]@ && plan@[j].action
                    == action_for(*mode),
        decreases matched@.len() - i,
    {
        plan.push(SweepStep { path: matched[i].clone(), action: mode_action(mode) });
        i = i + 1;
    }
    plan
}

/// Whether an action removes its file from the filesystem (to the trash
/// or for good).
pub open spec fn destructive(a: FileAction) -> bool {
    !(a is Keep)
}

/// The filesystem — paths mapped to their contents — after one step.
pub open spec fn apply_step(
    fs: Map<Seq<char>, Seq<u8>>,
    step: SweepStep,
) -> Map<Seq<char>, Seq<u8>> {
    if destructive(step.action) {
        fs.remove(step.path@)
    } else {
        fs
    }
}

/// The filesystem after a whole plan, first step first.
pub open spec fn apply_plan(
    fs: Map<Seq<char>, Seq<u8>>,
    plan: Seq<SweepStep>,
) -> Map<Seq<char>, Seq<u8>>
    decreases plan.len(),
{
    if plan.len() == 0 {
        fs
    } else {
        apply_plan(apply_step(fs, plan[0]), plan.drop_first())
    }
}

/// Dry-run idempotence: a plan whose steps all keep their file — which is
/// what `plan_sweep` lays out in `DryRun` mode — leaves every path and
/// every byte of the filesystem exactly as it was, so running it any
/// number of times changes nothing.
pub proof fn lemma_keep_plan_preserves_filesystem(
    fs: Map<Seq<char>, Seq<u8>>,
    plan: Seq<SweepStep>,
)
    requires
        forall|i: int| 0 <= i < plan.len() ==> (#[trigger] plan[i]).action is Keep,
    ensures
        apply_plan(fs, plan) == fs,
    decreases plan.len(),
{
    if plan.len() > 0 {
        assert(plan[0].action is Keep);
        lemma_keep_plan_preserves_filesystem(fs, plan.drop_first());
    }
}

/// The reported outcome of one executed step.
#[derive(Debug)]
pub struct StepResult {
    pub path: String,
    pub ok: bool,
}

/// The aggregate outcome of a sweep: how many files were removed or
/// trashed, how many failed, and which ones failed.
#[derive(Debug)]
pub struct SweepOutcome {
    pub deleted: u64,
    pub failed: u64,
    pub failed_paths: Vec<String>,
}

/// How many steps succeeded.
pub open spec fn spec_deleted(rs: Seq<StepResult>) -> int
    decreases rs.len(),
{
    if rs.len() == 0 {
        0
    } else {
        spec_deleted(rs.drop_last()) + (if rs.last().ok {
            1int
        } else {
            0int
        })
    }
}

/// The paths of the steps that failed, in reporting order.
pub open spec fn spec_failed_paths(rs: Seq<StepResult>) -> Seq<Seq<char>>
    decreases rs.len(),
{
    if rs.len() == 0 {
        Seq::empty()
    } else {
        spec_failed_paths(rs.drop_last()) + (if rs.last().ok {
            Seq::<Seq<char>>::empty()
        } else {
            seq![rs.last().path@]
        })
    }
}

proof fn lemma_deleted_bounds(rs: Seq<StepResult>)
    ensures
        0 <= spec_deleted(rs) <= rs.len(),
        spec_failed_paths(rs).len() == rs.len() - spec_deleted(rs),
    decreases rs.len(),
{
    if rs.len() > 0 {
        lemma_deleted_bounds(rs.drop_last());
    }
}

/// Folds the per-file outcomes into the sweep summary: every successful
/// step counts as deleted, every failed one is counted and its path
/// recorded.  No failure is lost and none aborts the accounting.
pub fn summarize_sweep(results: &Vec<StepResult>) -> (o: SweepOutcome)
    ensures
        o.deleted == spec_deleted(results@),
        o.failed == results@.len() - spec_deleted(results@),
        o.failed_paths@.map_values(|p: String| p@) == spec_failed_paths(results@),
        o.failed == o.failed_paths@.len(),
{
    let mut deleted: u64 = 0;
    let mut failed: u64 = 0;
    let mut failed_paths: Vec<String> = Vec::new();
    let mut i: usize = 0;
    proof {
        assert(results@.take(0) =~= Seq::<StepResult>::empty());
    }
    while i < results.len()
        invariant
            i <= results@.len(),
            deleted == spec_deleted(results@.take(i as int)),
            failed == i - spec_deleted(results@.take(i as int)),
            failed_paths@.map_values(|p: String| p@) == spec_failed_paths(
                results@.take(i as int),
            ),
            failed == failed_paths@.len(),
        decreases results@.len() - i,
    {
        let ghost prev = results@.take(i as int);
        let ghost cur = results@.take(i + 1);
        proof {
            assert(cur.drop_last() =~= prev);
            assert(cur.last() == results@[i as int]);
            lemma_deleted_bounds(prev);
        }
        if results[i].ok {
            deleted = deleted + 1;
            proof {
                assert(failed_paths@.map_values(|p: String| p@) =~= spec_failed_paths(cur));
            }
        } else {
            failed = failed + 1;
            failed_paths.push(results[i].path.clone());
            proof {
                assert(failed_paths@.map_values(|p: String| p@) =~= spec_failed_paths(cur));
            }
        }
        i = i + 1;
    }
    proof {
        assert(results@.take(results@.len() as int) =~= results@);
    }
    SweepOutcome { deleted, failed, failed_paths }
}

proof fn lemma_all_ok(rs: Seq<StepResult>)
    requires
        forall|i: int| 0 <= i < rs.len() ==> (#[trigger] rs[i]).ok,
    ensures
        spec_deleted(rs) == rs.len(),
        spec_failed_paths(rs) == Seq::<Seq<char>>::empty(),
    decreases rs.len(),
{
    if rs.len() > 0 {
        lemma_all_ok(rs.drop_last());
        assert(spec_failed_paths(rs) =~= Seq::<Seq<char>>::empty());
    }
}

/// Failure isolation: when exactly one step fails, every other file is
/// still removed — the summary counts all of them as deleted, reports one
/// failure, and the failed-path list holds exactly that file.
pub proof fn lemma_single_failure_is_isolated(rs: Seq<StepResult>, j: int)
    requires
        0 <= j < rs.len(),
        !rs[j].ok,
        forall|i: int| 0 <= i < rs.len() && i != j ==> (#[trigger] rs[i]).ok,
    ensures
        spec_deleted(rs) == rs.len() - 1,
        spec_failed_paths(rs) == seq![rs[j].path@],
    decreases rs.len(),
{
    if j == rs.len() - 1 {
        let front = rs.drop_last();
        assert(forall|i: int| 0 <= i < front.len() ==> (#[trigger] front[i]).ok);
        lemma_all_ok(front);
        assert(spec_failed_paths(rs) =~= seq![rs[j].path@]);
    } else {
        assert(rs.last().ok);
        lemma_single_failure_is_isolated(rs.drop_last(), j);
        assert(rs.drop_last()[j] == rs[j]);
        assert(spec_failed_paths(rs) =~= seq![rs[j].path@]);
    }
}

} // verus!
