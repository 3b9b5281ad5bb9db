//! The staged swap protocol: what to do on disk to promote a staged artifact
//! to its live path, and how to finish an interrupted commit at startup.
//!
//! The decisions are stated over a model of the file tree, a map from path to
//! content, so that the protocol's guarantees can be proved of the operations
//! that the decisions hand out.

use vstd::prelude::*;
use crate::paths::{AssetPath, opt_view};

verus! {

/// The file tree as the protocol sees it: each present path with its content.
pub type Tree = Map<Seq<char>, Seq<char>>;

/// One filesystem operation that the protocol asks the caller to perform.
pub enum FsOp {
    /// Move the file or directory at `from` to `to`.
    Rename { from: String, to: String },
    /// Delete the file or directory at `path`.
    Remove { path: String },
    /// Create or overwrite the file at `path` with `text`.
    Write { path: String, text: String },
}

/// An operation over plain sequences.
pub enum OpView {
    Rename(Seq<char>, Seq<char>),
    Remove(Seq<char>),
    Write(Seq<char>, Seq<char>),
}

impl View for FsOp {
    type V = OpView;

    open spec fn view(&self) -> OpView {
        match self {
            FsOp::Rename { from, to } => OpView::Rename(from@, to@),
            FsOp::Remove { path } => OpView::Remove(path@),
            FsOp::Write { path, text } => OpView::Write(path@, text@),
        }
    }
}

pub open spec fn ops_view(ops: Seq<FsOp>) -> Seq<OpView> {
    ops.map_values(|o: FsOp| o@)
}

/// The tree after `op`, or `None` where `op` cannot be carried out.
pub open spec fn apply_op(t: Tree, op: OpView) -> Option<Tree> {
    match op {
        OpView::Rename(from, to) => {
            if t.contains_key(from) && from != to {
                Some(t.remove(from).insert(to, t[from]))
            } else {
                None
            }
        },
        OpView::Remove(p) => {
            if t.contains_key(p) {
                Some(t.remove(p))
            } else {
                None
            }
        },
        OpView::Write(p, text) => Some(t.insert(p, text)),
    }
}

/// The tree after `ops` in order, or `None` where one of them cannot be
/// carried out.
pub open spec fn apply_ops(t: Tree, ops: Seq<OpView>) -> Option<Tree>
    decreases ops.len(),
{
    if ops.len() == 0 {
        Some(t)
    } else {
        match apply_op(t, ops[0]) {
            Some(t1) => apply_ops(t1, ops.drop_first()),
            None => None,
        }
    }
}

/// A staged directory bundle: the live artifact, its staged replacement, the
/// version marker and the half-updated marker written once the staged
/// artifact is complete.
pub struct StagedBundle {
    pub live: String,
    pub staged: String,
    pub marker: String,
    pub marker_staged: String,
}

/// The four paths of a bundle as plain sequences.
pub struct BundleView {
    pub live: Seq<char>,
    pub staged: Seq<char>,
    pub marker: Seq<char>,
    pub marker_staged: Seq<char>,
}

impl View for StagedBundle {
    type V = BundleView;

    open spec fn view(&self) -> BundleView {
        BundleView {
            live: self.live@,
            staged: self.staged@,
            marker: self.marker@,
            marker_staged: self.marker_staged@,
        }
    }
}

impl BundleView {
    /// The four paths are pairwise distinct.
    pub open spec fn wf(&self) -> bool {
        &&& self.live != self.staged
        &&& self.live != self.marker
        &&& self.live != self.marker_staged
        &&& self.staged != self.marker
        &&& self.staged != self.marker_staged
        &&& self.marker != self.marker_staged
    }
}

/// Startup recovery, from what is present on disk: where both the staged
/// artifact and the half-updated marker exist, drop any live artifact,
/// promote the staged one and promote the marker.
pub open spec fn prepare_ops(
    b: BundleView,
    marker_staged_present: bool,
    staged_present: bool,
    live_present: bool,
) -> Seq<OpView> {
    if marker_staged_present && staged_present {
        let finish = seq![
            OpView::Rename(b.staged, b.live),
            OpView::Rename(b.marker_staged, b.marker),
        ];
        if live_present {
            seq![OpView::Remove(b.live)] + finish
        } else {
            finish
        }
    } else {
        Seq::empty()
    }
}

/// Startup recovery on the tree `t`.
pub open spec fn prepare_spec(b: BundleView, t: Tree) -> Seq<OpView> {
    prepare_ops(
        b,
        t.contains_key(b.marker_staged),
        t.contains_key(b.staged),
        t.contains_key(b.live),
    )
}

/// The operations of startup recovery, given which of the bundle's staged
/// marker, staged artifact and live artifact are present.
pub fn prepare(
    bundle: &StagedBundle,
    marker_staged_present: bool,
    staged_present: bool,
    live_present: bool,
) -> (r: Vec<FsOp>)
    ensures
        ops_view(r@) == prepare_ops(bundle@, marker_staged_present, staged_present, live_present),
{
    let mut r: Vec<FsOp> = Vec::new();
    if marker_staged_present && staged_present {
        if live_present {
            r.push(FsOp::Remove { path: bundle.live.clone() });
        }
        r.push(FsOp::Rename { from: bundle.staged.clone(), to: bundle.live.clone() });
        r.push(
            FsOp::Rename {
                from: bundle.marker_staged.clone(),
                to: bundle.marker.clone(),
            },
        );
    }
    proof {
        let expected = prepare_ops(bundle@, marker_staged_present, staged_present, live_present);
        assert(ops_view(r@) =~= expected);
    }
    r
}

/// Startup recovery always runs to the end on the model, and running it a
/// second time, with nothing downloaded in between, changes nothing more.
pub proof fn prepare_is_idempotent(b: BundleView, t: Tree)
    requires
        b.wf(),
    ensures
        apply_ops(t, prepare_spec(b, t)) is Some,
        apply_ops(
            apply_ops(t, prepare_spec(b, t))->0,
            prepare_spec(b, apply_ops(t, prepare_spec(b, t))->0),
        ) == apply_ops(t, prepare_spec(b, t)),
{
    let t1 = apply_ops(t, prepare_spec(b, t))->0;
    lemma_prepare_result(b, t);
    assert(prepare_spec(b, t1) =~= Seq::<OpView>::empty());
    reveal_with_fuel(apply_ops, 1);
}

/// Where the staged artifact and the half-updated marker are both present
/// (a commit was interrupted), startup recovery leaves the staged content at
/// the live path and the staged marker's content in the version marker, and
/// neither staged path remains.
pub proof fn prepare_finishes_interrupted_commit(b: BundleView, t: Tree)
    requires
        b.wf(),
        t.contains_key(b.staged),
        t.contains_key(b.marker_staged),
    ensures
        apply_ops(t, prepare_spec(b, t)) is Some,
        apply_ops(t, prepare_spec(b, t))->0.contains_key(b.live),
        apply_ops(t, prepare_spec(b, t))->0[b.live] == t[b.staged],
        apply_ops(t, prepare_spec(b, t))->0.contains_key(b.marker),
        apply_ops(t, prepare_spec(b, t))->0[b.marker] == t[b.marker_staged],
        !apply_ops(t, prepare_spec(b, t))->0.contains_key(b.staged),
        !apply_ops(t, prepare_spec(b, t))->0.contains_key(b.marker_staged),
{
    lemma_prepare_result(b, t);
}

/// What startup recovery does to the tree, stated directly.
proof fn lemma_prepare_result(b: BundleView, t: Tree)
    requires
        b.wf(),
    ensures
        apply_ops(t, prepare_spec(b, t)) == Some(
            if t.contains_key(b.marker_staged) && t.contains_key(b.staged) {
                t.remove(b.live).remove(b.staged).insert(b.live, t[b.staged]).remove(
                    b.marker_staged,
                ).insert(b.marker, t[b.marker_staged])
            } else {
                t
            },
        ),
{
    let ops = prepare_spec(b, t);
    if t.contains_key(b.marker_staged) && t.contains_key(b.staged) {
        let t0 = t.remove(b.live);
        assert(t.contains_key(b.live) ==> t.remove(b.live) == t0);
        assert(!t.contains_key(b.live) ==> t =~= t0);
        let t1 = t0.remove(b.staged).insert(b.live, t[b.staged]);
        let t2 = t1.remove(b.marker_staged).insert(b.marker, t[b.marker_staged]);
        let finish = seq![
            OpView::Rename(b.staged, b.live),
            OpView::Rename(b.marker_staged, b.marker),
        ];
        assert(apply_op(t0, finish[0]) == Some(t1));
        assert(apply_op(t1, finish[1]) == Some(t2));
        assert(finish.drop_first().drop_first() =~= Seq::<OpView>::empty());
        assert(apply_ops(t2, finish.drop_first().drop_first()) == Some(t2));
        assert(apply_ops(t1, finish.drop_first()) == Some(t2));
        assert(apply_ops(t0, finish) == Some(t2));
        if t.contains_key(b.live) {
            assert((seq![OpView::Remove(b.live)] + finish).drop_first() =~= finish);
            assert(apply_ops(t, ops) == Some(t2));
        } else {
            assert(apply_ops(t, ops) == Some(t2));
        }
    } else {
        assert(ops.len() == 0);
    }
}

/// Where the commit of one staged asset stands.
#[derive(PartialEq, Eq, Structural, Clone, Copy, Debug)]
pub enum CommitStep {
    /// Move the live file aside to `P-old`.
    RetireLive,
    /// The live file could not be moved (it is probably loaded): delete it.
    RemoveLive,
    /// Move `P-new` to the live path.
    Promote,
    /// Remove the retired `P-old`, best effort: a failure is ignored.
    DropRetired,
    /// The staged file is live.
    Done,
    /// The live file could neither be moved nor deleted.
    LiveLocked,
    /// The staged file could not be moved to the live path.
    PromoteFailed,
}

pub open spec fn commit_start_spec(live_is_file: bool) -> CommitStep {
    if live_is_file {
        CommitStep::RetireLive
    } else {
        CommitStep::Promote
    }
}

pub open spec fn commit_next_spec(step: CommitStep, succeeded: bool) -> CommitStep {
    match step {
        CommitStep::RetireLive => if succeeded {
            CommitStep::Promote
        } else {
            CommitStep::RemoveLive
        },
        CommitStep::RemoveLive => if succeeded {
            CommitStep::Promote
        } else {
            CommitStep::LiveLocked
        },
        CommitStep::Promote => if succeeded {
            CommitStep::DropRetired
        } else {
            CommitStep::PromoteFailed
        },
        CommitStep::DropRetired => CommitStep::Done,
        _ => step,
    }
}

/// The paths of a staged file triple, as plain sequences.
pub struct TripleView {
    pub live: Seq<char>,
    pub staged: Seq<char>,
    pub retired: Seq<char>,
}

impl TripleView {
    pub open spec fn wf(&self) -> bool {
        &&& self.live != self.staged
        &&& self.live != self.retired
        &&& self.staged != self.retired
    }
}

pub open spec fn triple_of(a: AssetPath) -> TripleView {
    TripleView { live: a.live_spec(), staged: a.staged_spec(), retired: a.retired_spec() }
}

/// The three paths of every asset are distinct.
pub proof fn asset_triple_is_wf(a: AssetPath)
    ensures
        triple_of(a).wf(),
{
    reveal_strlit("-new");
    reveal_strlit("-old");
    let d = a.dir@;
    let n = a.name@;
    let p = if d.len() == 0 { Seq::<char>::empty() } else { d + seq!['/'] };
    let live = triple_of(a).live;
    let staged = triple_of(a).staged;
    let retired = triple_of(a).retired;
    assert(live =~= p + n);
    assert(staged =~= p + (n + "-new"@));
    assert(retired =~= p + (n + "-old"@));
    assert(live.len() != staged.len());
    assert(live.len() != retired.len());
    let k = (p.len() + n.len() + 1) as int;
    assert(staged[k] == 'n');
    assert(retired[k] == 'o');
}

pub open spec fn commit_op_spec(step: CommitStep, p: TripleView) -> Option<OpView> {
    match step {
        CommitStep::RetireLive => Some(OpView::Rename(p.live, p.retired)),
        CommitStep::RemoveLive => Some(OpView::Remove(p.live)),
        CommitStep::Promote => Some(OpView::Rename(p.staged, p.live)),
        CommitStep::DropRetired => Some(OpView::Remove(p.retired)),
        _ => None,
    }
}

impl CommitStep {
    /// The first step of a commit: retire the live file if there is one.
    pub fn start(live_is_file: bool) -> (r: CommitStep)
        ensures
            r == commit_start_spec(live_is_file),
    {
        if live_is_file {
            CommitStep::RetireLive
        } else {
            CommitStep::Promote
        }
    }

    /// The step after this one, given whether its operation succeeded.
    pub fn next(self, succeeded: bool) -> (r: CommitStep)
        ensures
            r == commit_next_spec(self, succeeded),
    {
        match self {
            CommitStep::RetireLive => if succeeded {
                CommitStep::Promote
            } else {
                CommitStep::RemoveLive
            },
            CommitStep::RemoveLive => if succeeded {
                CommitStep::Promote
            } else {
                CommitStep::LiveLocked
            },
            CommitStep::Promote => if succeeded {
                CommitStep::DropRetired
            } else {
                CommitStep::PromoteFailed
            },
            CommitStep::DropRetired => CommitStep::Done,
            _ => self,
        }
    }

    /// Whether the commit has ended, well or not.
    pub fn is_finished(self) -> (r: bool)
        ensures
            r == !(self is RetireLive || self is RemoveLive || self is Promote || self is DropRetired),
    {
        match self {
            CommitStep::Done | CommitStep::LiveLocked | CommitStep::PromoteFailed => true,
            _ => false,
        }
    }

    /// The operation that this step performs on `asset`, if any.
    pub fn op(self, asset: &AssetPath) -> (r: Option<FsOp>)
        ensures
            match r {
                Some(op) => commit_op_spec(self, triple_of(*asset)) == Some(op@),
                None => commit_op_spec(self, triple_of(*asset)) is None,
            },
    {
        match self {
            CommitStep::RetireLive => Some(FsOp::Rename { from: asset.live(), to: asset.retired() }),
            CommitStep::RemoveLive => Some(FsOp::Remove { path: asset.live() }),
            CommitStep::Promote => Some(FsOp::Rename { from: asset.staged(), to: asset.live() }),
            CommitStep::DropRetired => Some(FsOp::Remove { path: asset.retired() }),
            _ => None,
        }
    }
}

/// Whether an operation is refused by a lock on the live path: a locked file
/// can be deleted but not moved.
pub open spec fn refused(op: OpView, p: TripleView, live_locked: bool) -> bool {
    live_locked && op == OpView::Rename(p.live, p.retired)
}

/// One step of a commit on the model.
pub open spec fn commit_step_on(t: Tree, p: TripleView, step: CommitStep, live_locked: bool) -> (
    Tree,
    CommitStep,
) {
    match commit_op_spec(step, p) {
        None => (t, step),
        Some(op) => {
            let outcome = if refused(op, p, live_locked) {
                None
            } else {
                apply_op(t, op)
            };
            match outcome {
                Some(t1) => (t1, commit_next_spec(step, true)),
                None => (t, commit_next_spec(step, false)),
            }
        },
    }
}

/// `n` steps of a commit on the model.
pub open spec fn commit_steps_on(
    t: Tree,
    p: TripleView,
    step: CommitStep,
    live_locked: bool,
    n: nat,
) -> (Tree, CommitStep)
    decreases n,
{
    if n == 0 {
        (t, step)
    } else {
        let (t1, s1) = commit_step_on(t, p, step, live_locked);
        commit_steps_on(t1, p, s1, live_locked, (n - 1) as nat)
    }
}

/// A whole commit on the model, from the start; four steps reach its end.
pub open spec fn commit_on(t: Tree, p: TripleView, live_locked: bool) -> (Tree, CommitStep) {
    commit_steps_on(t, p, commit_start_spec(t.contains_key(p.live)), live_locked, 4)
}

/// A commit whose staged file is present ends with the staged content at the
/// live path and with neither `P-new` nor `P-old` left, whether or not the
/// live file is locked against moving: the locked run ends in exactly the
/// tree of the unlocked one.
pub proof fn locked_commit_matches_unlocked(t: Tree, p: TripleView)
    requires
        p.wf(),
        t.contains_key(p.staged),
    ensures
        commit_on(t, p, false).1 == CommitStep::Done,
        commit_on(t, p, true).1 == CommitStep::Done,
        commit_on(t, p, false).0.contains_key(p.live),
        commit_on(t, p, false).0[p.live] == t[p.staged],
        !commit_on(t, p, false).0.contains_key(p.staged),
        !commit_on(t, p, false).0.contains_key(p.retired),
        commit_on(t, p, true).0 == commit_on(t, p, false).0,
{
    reveal_with_fuel(commit_steps_on, 5);
    let cleaned = t.remove(p.live).remove(p.staged).insert(p.live, t[p.staged]).remove(p.retired);
    let promoted = t.remove(p.live).remove(p.staged).insert(p.live, t[p.staged]);
    if t.contains_key(p.live) {
        let moved = t.remove(p.live).insert(p.retired, t[p.live]);
        let unlocked = moved.remove(p.staged).insert(p.live, t[p.staged]);
        assert(unlocked.remove(p.retired) =~= cleaned);
        assert(commit_on(t, p, false).0 == unlocked.remove(p.retired));
        if promoted.contains_key(p.retired) {
            assert(commit_on(t, p, true).0 == promoted.remove(p.retired));
        } else {
            assert(commit_on(t, p, true).0 == promoted);
            assert(promoted =~= cleaned);
        }
    } else {
        let unlocked = t.remove(p.staged).insert(p.live, t[p.staged]);
        assert(promoted =~= unlocked);
        if unlocked.contains_key(p.retired) {
            assert(commit_on(t, p, false).0 == unlocked.remove(p.retired));
            assert(commit_on(t, p, true).0 == unlocked.remove(p.retired));
        } else {
            assert(commit_on(t, p, false).0 == unlocked);
            assert(commit_on(t, p, true).0 == unlocked);
        }
    }
}

/// The bundle needs an update when its live artifact is missing or its
/// marker does not hold `expected` (an absent marker counts as different).
///
/// A staged artifact waiting with a half-updated marker does not count as
/// installed: startup recovery consumes any such pair from an earlier
/// session before the first check, so at check time a waiting pair can only
/// be this session's own download. Where an update is needed the pair is
/// discarded first (`begin_ops`); where none is needed it is left alone, and
/// the check writes nothing.
pub open spec fn bundle_needs_update_spec(
    live_present: bool,
    marker: Option<Seq<char>>,
    expected: Seq<char>,
) -> bool {
    !live_present || marker != Some(expected)
}

/// Before a new download: drop the half-updated marker first, so that a
/// crash during the download can never get a partial artifact promoted, then
/// any stale staged artifact.
pub open spec fn begin_ops(
    b: BundleView,
    marker_staged_present: bool,
    staged_present: bool,
) -> Seq<OpView> {
    (if marker_staged_present {
        seq![OpView::Remove(b.marker_staged)]
    } else {
        Seq::empty()
    }) + (if staged_present {
        seq![OpView::Remove(b.staged)]
    } else {
        Seq::empty()
    })
}

impl StagedBundle {
    /// Whether the bundle needs a new download; see `bundle_needs_update_spec`.
    pub fn needs_update(live_present: bool, marker: &Option<String>, expected: &String) -> (r:
        bool)
        ensures
            r == bundle_needs_update_spec(live_present, opt_view(*marker), expected@),
    {
        if !live_present {
            return true;
        }
        match marker {
            Some(m) => !m.eq(expected),
            None => true,
        }
    }

    /// The clean-up before a new download; see `begin_ops`.
    pub fn begin(&self, marker_staged_present: bool, staged_present: bool) -> (r: Vec<FsOp>)
        ensures
            ops_view(r@) == begin_ops(self@, marker_staged_present, staged_present),
    {
        let mut r: Vec<FsOp> = Vec::new();
        if marker_staged_present {
            r.push(FsOp::Remove { path: self.marker_staged.clone() });
        }
        if staged_present {
            r.push(FsOp::Remove { path: self.staged.clone() });
        }
        proof {
            assert(ops_view(r@) =~= begin_ops(self@, marker_staged_present, staged_present));
        }
        r
    }

    /// Marks the staged artifact complete: the half-updated marker records
    /// `version`, and the next startup recovery commits it.
    pub fn finish(&self, version: &String) -> (r: FsOp)
        ensures
            r@ == OpView::Write(self@.marker_staged, version@),
    {
        FsOp::Write { path: self.marker_staged.clone(), text: version.clone() }
    }
}

/// A download abandoned at any point after its clean-up leaves nothing for
/// startup recovery to promote: the live artifact and its marker stay as
/// they were, whatever the partial download wrote to the staged path.
pub proof fn abandoned_download_keeps_live(b: BundleView, t: Tree, partial: Seq<char>)
    requires
        b.wf(),
    ensures
        apply_ops(
            t,
            begin_ops(b, t.contains_key(b.marker_staged), t.contains_key(b.staged)),
        ) is Some,
        ({
            let t1 = apply_ops(
                t,
                begin_ops(b, t.contains_key(b.marker_staged), t.contains_key(b.staged)),
            )->0;
            let t2 = t1.insert(b.staged, partial);
            &&& prepare_spec(b, t2).len() == 0
            &&& t2.contains_key(b.live) == t.contains_key(b.live)
            &&& t2.contains_key(b.live) ==> t2[b.live] == t[b.live]
            &&& t2.contains_key(b.marker) == t.contains_key(b.marker)
            &&& t2.contains_key(b.marker) ==> t2[b.marker] == t[b.marker]
        }),
{
    let ms = t.contains_key(b.marker_staged);
    let st = t.contains_key(b.staged);
    let ops = begin_ops(b, ms, st);
    let t_a = if ms { t.remove(b.marker_staged) } else { t };
    let t_b = if st { t_a.remove(b.staged) } else { t_a };
    reveal_with_fuel(apply_ops, 3);
    if ms && st {
        assert(ops =~= seq![OpView::Remove(b.marker_staged), OpView::Remove(b.staged)]);
        assert(ops.drop_first() =~= seq![OpView::Remove(b.staged)]);
        assert(ops.drop_first().drop_first() =~= Seq::<OpView>::empty());
    } else if ms {
        assert(ops =~= seq![OpView::Remove(b.marker_staged)]);
        assert(ops.drop_first() =~= Seq::<OpView>::empty());
    } else if st {
        assert(ops =~= seq![OpView::Remove(b.staged)]);
        assert(ops.drop_first() =~= Seq::<OpView>::empty());
    } else {
        assert(ops =~= Seq::<OpView>::empty());
    }
    assert(apply_ops(t, ops) == Some(t_b));
    assert(!t_b.insert(b.staged, partial).contains_key(b.marker_staged));
}

} // verus!
