//! The run of one target's update: each managed file is downloaded to its
//! staged path and committed in turn, and the version marker is written only
//! after every file has been committed.

use vstd::prelude::*;
use crate::paths::AssetPath;
use crate::swap::{
    CommitStep, FsOp, OpView, Tree, TripleView, apply_op, commit_next_spec, commit_op_spec,
    commit_start_spec, triple_of,
};

verus! {

/// Where a target's run stands.
#[derive(PartialEq, Eq, Structural, Clone, Copy, Debug)]
pub enum Stage {
    /// Download managed file `i` to its staged path.
    Download(usize),
    /// Commit managed file `i`; the step says which operation is next.
    Commit(usize, CommitStep),
    /// Write the version marker.
    Marker,
    /// Every file is committed and the marker is written.
    Finished,
    /// The run stopped; the marker was not advanced.
    Failed,
}

/// What the caller does next for the run.
pub enum TargetAction {
    /// Download release asset `source` into the staged path of file `index`.
    Download { index: usize, source: usize },
    /// Perform this operation and report whether it succeeded.
    Apply(FsOp),
    /// The run is over; `true` when the target was updated.
    Done(bool),
}

/// One target's run over `count` managed files.
#[derive(PartialEq, Eq, Structural, Clone, Copy, Debug)]
pub struct TargetRun {
    pub count: usize,
    pub stage: Stage,
}

pub open spec fn after_commit(count: usize, i: usize, step: CommitStep) -> Stage {
    if step == CommitStep::Done {
        if i + 1 < count {
            Stage::Download((i + 1) as usize)
        } else {
            Stage::Marker
        }
    } else if step == CommitStep::LiveLocked || step == CommitStep::PromoteFailed {
        Stage::Failed
    } else {
        Stage::Commit(i, step)
    }
}

/// The stage after the current one, given whether its work succeeded and,
/// after a download, whether a live file is present at the managed path.
pub open spec fn advance_spec(r: TargetRun, succeeded: bool, live_is_file: bool) -> Stage {
    match r.stage {
        Stage::Download(i) => if succeeded {
            Stage::Commit(i, commit_start_spec(live_is_file))
        } else {
            Stage::Failed
        },
        Stage::Commit(i, step) => after_commit(r.count, i, commit_next_spec(step, succeeded)),
        Stage::Marker => if succeeded {
            Stage::Finished
        } else {
            Stage::Failed
        },
        _ => r.stage,
    }
}

impl TargetRun {
    pub open spec fn new_spec(count: usize) -> TargetRun {
        TargetRun { count, stage: if count == 0 { Stage::Marker } else { Stage::Download(0) } }
    }

    /// A run over `count` files starts with the first download, or with the
    /// marker when there is no file.
    pub fn new(count: usize) -> (r: Self)
        ensures
            r == Self::new_spec(count),
    {
        TargetRun { count, stage: if count == 0 { Stage::Marker } else { Stage::Download(0) } }
    }

    /// A stage names only files of the run, and a commit stage holds a step
    /// that still has an operation to perform.
    pub open spec fn wf(&self) -> bool {
        match self.stage {
            Stage::Download(i) => i < self.count,
            Stage::Commit(i, step) => i < self.count && (step is RetireLive || step is RemoveLive
                || step is Promote || step is DropRetired),
            _ => true,
        }
    }

    /// Moves the run on; see `advance_spec`.
    pub fn advance(&mut self, succeeded: bool, live_is_file: bool)
        requires
            old(self).wf(),
        ensures
            final(self).count == old(self).count,
            final(self).stage == advance_spec(*old(self), succeeded, live_is_file),
            final(self).wf(),
    {
        let next = match self.stage {
            Stage::Download(i) => if succeeded {
                Stage::Commit(i, CommitStep::start(live_is_file))
            } else {
                Stage::Failed
            },
            Stage::Commit(i, step) => {
                let s = step.next(succeeded);
                if s == CommitStep::Done {
                    if i + 1 < self.count {
                        Stage::Download(i + 1)
                    } else {
                        Stage::Marker
                    }
                } else if s == CommitStep::LiveLocked || s == CommitStep::PromoteFailed {
                    Stage::Failed
                } else {
                    Stage::Commit(i, s)
                }
            },
            Stage::Marker => if succeeded {
                Stage::Finished
            } else {
                Stage::Failed
            },
            _ => self.stage,
        };
        self.stage = next;
    }

    /// The work of the current stage. `sources[i]` is the release asset of
    /// file `i`; `marker` is the marker write of the target.
    pub fn action(&self, assets: &Vec<AssetPath>, sources: &Vec<usize>, marker: &FsOp) -> (r:
        TargetAction)
        requires
            self.wf(),
            assets@.len() == self.count,
            sources@.len() == self.count,
        ensures
            match self.stage {
                Stage::Download(i) => r == (TargetAction::Download { index: i, source: sources@[i as int] }),
                Stage::Commit(i, step) => match commit_op_spec(step, triple_of(assets@[i as int])) {
                    Some(o) => r matches TargetAction::Apply(op) && op@ == o,
                    None => r == TargetAction::Done(false),
                },
                Stage::Marker => r matches TargetAction::Apply(op) && op@ == marker@,
                Stage::Finished => r == TargetAction::Done(true),
                Stage::Failed => r == TargetAction::Done(false),
            },
    {
        match self.stage {
            Stage::Download(i) => TargetAction::Download { index: i, source: sources[i] },
            Stage::Commit(i, step) => match step.op(&assets[i]) {
                Some(op) => TargetAction::Apply(op),
                None => TargetAction::Done(false),
            },
            Stage::Marker => TargetAction::Apply(copy_op(marker)),
            Stage::Finished => TargetAction::Done(true),
            Stage::Failed => TargetAction::Done(false),
        }
    }
}

fn copy_op(op: &FsOp) -> (r: FsOp)
    ensures
        r@ == op@,
{
    match op {
        FsOp::Rename { from, to } => FsOp::Rename { from: from.clone(), to: to.clone() },
        FsOp::Remove { path } => FsOp::Remove { path: path.clone() },
        FsOp::Write { path, text } => FsOp::Write { path: path.clone(), text: text.clone() },
    }
}

/// The marker is reached only from the last file's clean-up, which follows
/// its successful promotion: no marker is written while a file of the target
/// is uncommitted.
pub proof fn marker_only_after_last_commit(r: TargetRun, succeeded: bool, live_is_file: bool)
    requires
        r.wf(),
        r.stage != Stage::Marker,
        advance_spec(r, succeeded, live_is_file) == Stage::Marker,
    ensures
        r.stage == Stage::Commit((r.count - 1) as usize, CommitStep::DropRetired),
{
}

/// A failed run stays failed and a finished one stays finished.
pub proof fn ends_are_final(r: TargetRun, succeeded: bool, live_is_file: bool)
    requires
        r.stage == Stage::Failed || r.stage == Stage::Finished,
    ensures
        advance_spec(r, succeeded, live_is_file) == r.stage,
{
}

/// One step of a run on the model: a download puts `payloads[i]` at file
/// `i`'s staged path; an operation succeeds exactly where the model can carry
/// it out.
pub open spec fn run_step_on(
    t: Tree,
    r: TargetRun,
    ps: Seq<TripleView>,
    payloads: Seq<Seq<char>>,
    marker: OpView,
) -> (Tree, Stage) {
    match r.stage {
        Stage::Download(i) => {
            let t1 = t.insert(ps[i as int].staged, payloads[i as int]);
            (t1, advance_spec(r, true, t1.contains_key(ps[i as int].live)))
        },
        Stage::Commit(i, step) => match commit_op_spec(step, ps[i as int]) {
            Some(op) => match apply_op(t, op) {
                Some(t1) => (t1, advance_spec(r, true, false)),
                None => (t, advance_spec(r, false, false)),
            },
            None => (t, r.stage),
        },
        Stage::Marker => match apply_op(t, marker) {
            Some(t1) => (t1, advance_spec(r, true, false)),
            None => (t, advance_spec(r, false, false)),
        },
        _ => (t, r.stage),
    }
}

/// `n` steps of a run on the model.
pub open spec fn run_on(
    t: Tree,
    r: TargetRun,
    ps: Seq<TripleView>,
    payloads: Seq<Seq<char>>,
    marker: OpView,
    n: nat,
) -> (Tree, Stage)
    decreases n,
{
    if n == 0 {
        (t, r.stage)
    } else {
        let (t1, s1) = run_step_on(t, r, ps, payloads, marker);
        run_on(t1, TargetRun { count: r.count, stage: s1 }, ps, payloads, marker, (n - 1) as nat)
    }
}

/// No path of `p` is a path of `q`.
pub open spec fn apart(p: TripleView, q: TripleView) -> bool {
    &&& p.live != q.live && p.live != q.staged && p.live != q.retired
    &&& p.staged != q.live && p.staged != q.staged && p.staged != q.retired
    &&& p.retired != q.live && p.retired != q.staged && p.retired != q.retired
}

/// The files' paths are all distinct, and none is the marker's path.
pub open spec fn files_disjoint(ps: Seq<TripleView>, m: Seq<char>) -> bool {
    &&& forall|i: int|
        0 <= i < ps.len() ==> (#[trigger] ps[i]).wf() && ps[i].live != m && ps[i].staged != m
            && ps[i].retired != m
    &&& forall|i: int, j: int|
        0 <= i < ps.len() && 0 <= j < ps.len() && i != j ==> apart(#[trigger] ps[i], #[trigger] ps[j])
}

/// Files before `i` are committed: each holds its payload at its live path,
/// and neither its staged nor its retired path remains.
pub open spec fn committed_before(t: Tree, ps: Seq<TripleView>, payloads: Seq<Seq<char>>, i: int) -> bool {
    forall|j: int|
        0 <= j < i ==> {
            &&& t.contains_key((#[trigger] ps[j]).live)
            &&& t[ps[j].live] == payloads[j]
            &&& !t.contains_key(ps[j].staged)
            &&& !t.contains_key(ps[j].retired)
        }
}

proof fn lemma_finished_stays(
    t: Tree,
    r: TargetRun,
    ps: Seq<TripleView>,
    payloads: Seq<Seq<char>>,
    marker: OpView,
    n: nat,
)
    requires
        r.stage == Stage::Finished,
    ensures
        run_on(t, r, ps, payloads, marker, n) == (t, Stage::Finished),
    decreases n,
{
    if n > 0 {
        assert(TargetRun { count: r.count, stage: Stage::Finished } == r);
        lemma_finished_stays(t, r, ps, payloads, marker, (n - 1) as nat);
    }
}

proof fn lemma_run_from(
    t: Tree,
    r: TargetRun,
    ps: Seq<TripleView>,
    payloads: Seq<Seq<char>>,
    m: Seq<char>,
    v: Seq<char>,
    n: nat,
)
    requires
        ps.len() == r.count,
        payloads.len() == r.count,
        files_disjoint(ps, m),
        r.stage is Download,
        (r.stage->Download_0 as int) < r.count,
        n >= 4 * (r.count - r.stage->Download_0) + 1,
        committed_before(t, ps, payloads, r.stage->Download_0 as int),
    ensures
        run_on(t, r, ps, payloads, OpView::Write(m, v), n).1 == Stage::Finished,
        committed_before(run_on(t, r, ps, payloads, OpView::Write(m, v), n).0, ps, payloads, r.count as int),
        run_on(t, r, ps, payloads, OpView::Write(m, v), n).0.contains_key(m),
        run_on(t, r, ps, payloads, OpView::Write(m, v), n).0[m] == v,
    decreases r.count - r.stage->Download_0,
{
    let marker = OpView::Write(m, v);
    let i = r.stage->Download_0;
    let ii = i as int;
    let p = ps[ii];
    assert(p.wf());
    let c = r.count;
    let t1 = t.insert(p.staged, payloads[ii]);
    let live = t.contains_key(p.live);
    assert(t1.contains_key(p.live) == live);
    let r1 = TargetRun { count: c, stage: Stage::Commit(i, commit_start_spec(live)) };
    assert(run_step_on(t, r, ps, payloads, marker) == (t1, r1.stage));
    assert(run_on(t, r, ps, payloads, marker, n) == run_on(t1, r1, ps, payloads, marker, (n - 1) as nat));
    // the tree once file i is promoted, before its retired path is dropped
    let t3 = if live {
        let t2 = t1.remove(p.live).insert(p.retired, t1[p.live]);
        let r2 = TargetRun { count: c, stage: Stage::Commit(i, CommitStep::Promote) };
        assert(run_step_on(t1, r1, ps, payloads, marker) == (t2, r2.stage));
        assert(run_on(t1, r1, ps, payloads, marker, (n - 1) as nat) == run_on(t2, r2, ps, payloads, marker, (n - 2) as nat));
        let t3 = t2.remove(p.staged).insert(p.live, t2[p.staged]);
        let r3 = TargetRun { count: c, stage: Stage::Commit(i, CommitStep::DropRetired) };
        assert(run_step_on(t2, r2, ps, payloads, marker) == (t3, r3.stage));
        assert(run_on(t2, r2, ps, payloads, marker, (n - 2) as nat) == run_on(t3, r3, ps, payloads, marker, (n - 3) as nat));
        t3
    } else {
        let t3 = t1.remove(p.staged).insert(p.live, t1[p.staged]);
        let r3 = TargetRun { count: c, stage: Stage::Commit(i, CommitStep::DropRetired) };
        assert(run_step_on(t1, r1, ps, payloads, marker) == (t3, r3.stage));
        t3
    };
    let k: nat = if live { 4 } else { 3 };
    let r3 = TargetRun { count: c, stage: Stage::Commit(i, CommitStep::DropRetired) };
    assert(run_on(t, r, ps, payloads, marker, n) == run_on(t3, r3, ps, payloads, marker, (n - k + 1) as nat));
    let t4 = t3.remove(p.retired);
    let next = after_commit(c, i, CommitStep::Done);
    let r4 = TargetRun { count: c, stage: next };
    if t3.contains_key(p.retired) {
        assert(run_step_on(t3, r3, ps, payloads, marker) == (t4, next));
    } else {
        assert(t3 =~= t4);
        assert(run_step_on(t3, r3, ps, payloads, marker) == (t4, next));
    }
    assert(run_on(t, r, ps, payloads, marker, n) == run_on(t4, r4, ps, payloads, marker, (n - k) as nat));
    assert(t4.contains_key(p.live) && t4[p.live] == payloads[ii]);
    assert(!t4.contains_key(p.staged) && !t4.contains_key(p.retired));
    assert(committed_before(t4, ps, payloads, ii + 1)) by {
        assert forall|j: int| 0 <= j < ii + 1 implies {
            &&& t4.contains_key((#[trigger] ps[j]).live)
            &&& t4[ps[j].live] == payloads[j]
            &&& !t4.contains_key(ps[j].staged)
            &&& !t4.contains_key(ps[j].retired)
        } by {
            if j < ii {
                assert(apart(ps[j], ps[ii]));
            }
        }
    }
    if ii + 1 < c {
        lemma_run_from(t4, r4, ps, payloads, m, v, (n - k) as nat);
    } else {
        assert(next == Stage::Marker);
        let t5 = t4.insert(m, v);
        let r5 = TargetRun { count: c, stage: Stage::Finished };
        assert(run_step_on(t4, r4, ps, payloads, marker) == (t5, Stage::Finished));
        assert(run_on(t4, r4, ps, payloads, marker, (n - k) as nat) == run_on(t5, r5, ps, payloads, marker, (n - k - 1) as nat));
        lemma_finished_stays(t5, r5, ps, payloads, marker, (n - k - 1) as nat);
        assert(committed_before(t5, ps, payloads, c as int)) by {
            assert forall|j: int| 0 <= j < c implies {
                &&& t5.contains_key((#[trigger] ps[j]).live)
                &&& t5[ps[j].live] == payloads[j]
                &&& !t5.contains_key(ps[j].staged)
                &&& !t5.contains_key(ps[j].retired)
            } by {
                assert(ps[j].live != m && ps[j].staged != m && ps[j].retired != m);
            }
        }
    }
}

/// A run over `n` files in which every download and every operation goes
/// through ends finished, with each file's download at its live path, no
/// staged or retired path left, and the marker holding the new version.
pub proof fn full_run_installs_every_file(
    t: Tree,
    count: usize,
    ps: Seq<TripleView>,
    payloads: Seq<Seq<char>>,
    m: Seq<char>,
    v: Seq<char>,
)
    requires
        count > 0,
        ps.len() == count,
        payloads.len() == count,
        files_disjoint(ps, m),
    ensures
        ({
            let (t1, stage) = run_on(
                t,
                TargetRun::new_spec(count),
                ps,
                payloads,
                OpView::Write(m, v),
                (4 * count + 1) as nat,
            );
            &&& stage == Stage::Finished
            &&& committed_before(t1, ps, payloads, count as int)
            &&& t1.contains_key(m)
            &&& t1[m] == v
        }),
{
    lemma_run_from(t, TargetRun::new_spec(count), ps, payloads, m, v, (4 * count + 1) as nat);
}

} // verus!
