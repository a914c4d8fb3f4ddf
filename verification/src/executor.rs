//! The session executor: a cooperative step machine that runs the task
//! tree of a composed session over a store of one-shot channels.
//!
//! Each task owns its context of endpoint slots, its environment of
//! received values and one output endpoint; a step performs at most one
//! channel interaction.  A task that must wait for a value is re-run
//! later; a full sweep without progress means no peer can deliver and
//! fails the whole session, since a partially executed linear protocol
//! cannot be resumed.

use vstd::prelude::*;

use crate::RunError;
use crate::channel::{
    OneShot, RecvOutcome, chan_fresh, chan_holds, chan_msgs, chan_open, chan_send, chan_spent,
    chan_try_recv, lemma_store_evolves_trans, oneshot_chan, oneshot_dropped, store_evolves,
};
use crate::context::{
    Slot, append_context, extract_source, insert_target, lemma_split_merge_inverse,
};
use crate::prism::{intro_sum, resolve_sum, spec_intro_sum, spec_resolve_sum};
use crate::session::{Expr, PartialSession};
use crate::value::Value;

verus! {

/// What a task is up to: running a session builder, awaiting the peer's
/// answer to a channel request, relaying one fixpoint wrap, or finished.
pub enum Job {
    Run(PartialSession),
    AwaitChannel { chan: usize, slot: Option<usize>, cont: Box<PartialSession> },
    FixWrap { from: usize },
    Done,
}

/// One cooperative task: a job, the context of endpoint slots it owns,
/// the values it has received, and the output endpoint it drives.
pub struct Task {
    pub job: Job,
    pub ctx: Vec<Slot>,
    pub env: Vec<Option<Value>>,
    pub out: usize,
}

/// The executing machine: the tasks of one session run, the channel
/// store they communicate through, and the audit trail recording which
/// channels have delivered their one value.
pub struct Machine {
    pub tasks: Vec<Task>,
    pub chans: Vec<OneShot>,
    pub got: Vec<bool>,
}

/// The machine's audit trail covers exactly its channels.
pub open spec fn m_wf(m: Machine) -> bool {
    m.got@.len() == m.chans@.len()
}

/// Every task of the machine has finished.
pub open spec fn machine_done(m: Machine) -> bool {
    forall|i: int| 0 <= i < m.tasks@.len() ==> m.tasks@[i].job is Done
}

/// What one step of one task came to.
pub enum StepOutcome {
    Progressed,
    Blocked,
    Idle,
    Failed(RunError),
}

/// A fresh empty machine.
pub fn machine_new() -> (m: Machine)
    ensures
        m_wf(m),
        m.tasks@.len() == 0,
        m.chans@.len() == 0,
{
    Machine { tasks: Vec::new(), chans: Vec::new(), got: Vec::new() }
}

fn alloc_chan(chans: &mut Vec<OneShot>, got: &mut Vec<bool>) -> (c: usize)
    requires
        old(got)@.len() == old(chans)@.len(),
    ensures
        final(got)@.len() == final(chans)@.len(),
        final(chans)@.len() == old(chans)@.len() + 1,
        c == old(chans)@.len(),
        forall|j: int| 0 <= j < old(chans)@.len() ==> final(chans)@[j] == old(chans)@[j],
        forall|j: int| 0 <= j < old(got)@.len() ==> final(got)@[j] == old(got)@[j],
        chan_open(final(chans)@[c as int]),
        chan_msgs(final(chans)@[c as int]) == Seq::<Value>::empty(),
        final(got)@[c as int] == false,
        store_evolves(old(chans)@, final(chans)@),
{
    let c = chans.len();
    chans.push(oneshot_chan());
    got.push(false);
    c
}

/// Allocates a channel whose sender is already gone, so that a receive
/// on it reports a delivery failure: the modelled "peer dropped before
/// sending" situation.
fn alloc_dropped_chan(chans: &mut Vec<OneShot>, got: &mut Vec<bool>) -> (c: usize)
    requires
        old(got)@.len() == old(chans)@.len(),
    ensures
        final(got)@.len() == final(chans)@.len(),
        final(chans)@.len() == old(chans)@.len() + 1,
        c == old(chans)@.len(),
        forall|j: int| 0 <= j < old(chans)@.len() ==> final(chans)@[j] == old(chans)@[j],
        forall|j: int| 0 <= j < old(got)@.len() ==> final(got)@[j] == old(got)@[j],
        !chan_open(final(chans)@[c as int]),
        chan_msgs(final(chans)@[c as int]) == Seq::<Value>::empty(),
        final(got)@[c as int] == false,
        store_evolves(old(chans)@, final(chans)@),
{
    let c = chans.len();
    chans.push(oneshot_dropped());
    got.push(false);
    c
}

fn send_to(chans: &mut Vec<OneShot>, c: usize, v: Value) -> (ok: bool)
    requires
        c < old(chans)@.len(),
    ensures
        final(chans)@.len() == old(chans)@.len(),
        forall|j: int| 0 <= j < old(chans)@.len() && j != c ==> final(chans)@[j] == old(
            chans,
        )@[j],
        store_evolves(old(chans)@, final(chans)@),
        ok ==> {
            &&& chan_open(old(chans)@[c as int])
            &&& !chan_open(final(chans)@[c as int])
            &&& chan_msgs(final(chans)@[c as int]) == seq![v]
        },
        !ok ==> {
            &&& !chan_open(old(chans)@[c as int])
            &&& final(chans)@[c as int] == old(chans)@[c as int]
        },
{
    let ok = chan_send(&mut chans[c], v);
    ok
}

fn recv_from(chans: &mut Vec<OneShot>, got: &mut Vec<bool>, c: usize) -> (r: RecvOutcome)
    requires
        c < old(chans)@.len(),
        old(got)@.len() == old(chans)@.len(),
    ensures
        final(got)@.len() == final(chans)@.len(),
        final(chans)@.len() == old(chans)@.len(),
        forall|j: int| 0 <= j < old(chans)@.len() && j != c ==> final(chans)@[j] == old(
            chans,
        )@[j] && final(got)@[j] == old(got)@[j],
        store_evolves(old(chans)@, final(chans)@),
        match r {
            RecvOutcome::Got(v) => {
                &&& chan_msgs(old(chans)@[c as int]) == seq![v]
                &&& !chan_open(old(chans)@[c as int])
                &&& chan_msgs(final(chans)@[c as int]) == Seq::<Value>::empty()
                &&& !chan_open(final(chans)@[c as int])
                &&& final(got)@[c as int] == true
            },
            RecvOutcome::Pending => {
                &&& chan_fresh(old(chans)@[c as int])
                &&& final(chans)@[c as int] == old(chans)@[c as int]
                &&& final(got)@[c as int] == old(got)@[c as int]
            },
            RecvOutcome::Gone => {
                &&& chan_spent(old(chans)@[c as int])
                &&& final(chans)@[c as int] == old(chans)@[c as int]
                &&& final(got)@[c as int] == old(got)@[c as int]
            },
        },
{
    let r = chan_try_recv(&mut chans[c]);
    match r {
        RecvOutcome::Got(v) => {
            got[c] = true;
            RecvOutcome::Got(v)
        },
        RecvOutcome::Pending => RecvOutcome::Pending,
        RecvOutcome::Gone => RecvOutcome::Gone,
    }
}

/// Evaluates a payload expression against the environment of received
/// values.  A bound value is a linear resource: reading it empties its
/// binding.
fn eval_expr(env: &mut Vec<Option<Value>>, e: Expr) -> (r: Option<Value>)
    ensures
        final(env)@.len() == old(env)@.len(),
        e matches Expr::Lit(v) ==> r == Some(v) && final(env)@ == old(env)@,
        e matches Expr::Var(i) ==> match r {
            Some(v) => {
                &&& (i as int) < old(env)@.len()
                &&& old(env)@[old(env)@.len() - 1 - (i as int)] == Some(v)
                &&& final(env)@ == old(env)@.update(
                    old(env)@.len() - 1 - (i as int),
                    None::<Value>,
                )
            },
            None => {
                &&& final(env)@ == old(env)@
                &&& ((i as int) >= old(env)@.len() || old(env)@[old(env)@.len() - 1 - (
                i as int)] is None)
            },
        },
{
    match e {
        Expr::Lit(v) => Some(v),
        Expr::Var(i) => {
            let n = env.len();
            if i < n {
                let idx = n - 1 - i;
                let v = env.remove(idx);
                env.insert(idx, None);
                proof {
                    assert(env@ =~= old(env)@.update(idx as int, None::<Value>));
                }
                match v {
                    Some(v) => Some(v),
                    None => {
                        proof {
                            assert(env@ =~= old(env)@);
                        }
                        None
                    },
                }
            } else {
                None
            }
        },
    }
}

fn peek_slot(ctx: &Vec<Slot>, i: usize) -> (r: Option<usize>)
    ensures
        match r {
            Some(c) => i < ctx@.len() && ctx@[i as int] == Slot::Held(c),
            None => i >= ctx@.len() || ctx@[i as int] is Empty,
        },
{
    if i < ctx.len() {
        match ctx[i] {
            Slot::Held(c) => Some(c),
            Slot::Empty => None,
        }
    } else {
        None
    }
}

fn ctx_all_empty(ctx: &Vec<Slot>) -> (b: bool)
    ensures
        b == (forall|j: int| 0 <= j < ctx@.len() ==> ctx@[j] is Empty),
{
    let mut i: usize = 0;
    while i < ctx.len()
        invariant
            i <= ctx@.len(),
            forall|j: int| 0 <= j < i ==> ctx@[j] is Empty,
        decreases ctx@.len() - i,
    {
        match ctx[i] {
            Slot::Held(_) => {
                return false;
            },
            Slot::Empty => {},
        }
        i = i + 1;
    }
    true
}

fn park(m: &mut Machine, tid: usize, job: Job, ctx: Vec<Slot>, env: Vec<Option<Value>>, out: usize, r0: StepOutcome, Ghost(pre): Ghost<Seq<Task>>) -> (r: StepOutcome)
    requires
        m_wf(*old(m)),
        (tid as int) < pre.len(),
        old(m).tasks@ == pre.remove(tid as int),
    ensures
        m_wf(*final(m)),
        final(m).chans@ == old(m).chans@,
        final(m).got@ == old(m).got@,
        final(m).tasks@.len() == pre.len(),
        forall|j: int| 0 <= j < pre.len() && j != tid ==> final(m).tasks@[j] == pre[j],
        final(m).tasks@[tid as int].job == job,
        final(m).tasks@[tid as int].ctx@ == ctx@,
        final(m).tasks@[tid as int].env@ == env@,
        final(m).tasks@[tid as int].out == out,
        r == r0,
{
    m.tasks.insert(tid, Task { job, ctx, env, out });
    proof {
        assert forall|j: int| 0 <= j < pre.len() && j != tid implies m.tasks@[j] == pre[j] by {
            if j < tid {
                assert(m.tasks@[j] == pre.remove(tid as int)[j]);
            } else {
                assert(m.tasks@[j] == pre.remove(tid as int)[j - 1]);
            }
        }
    }
    r0
}

fn park_spawn(m: &mut Machine, tid: usize, job: Job, ctx: Vec<Slot>, env: Vec<Option<Value>>, out: usize, r0: StepOutcome, Ghost(pre): Ghost<Seq<Task>>, Ghost(extra): Ghost<Task>) -> (r: StepOutcome)
    requires
        m_wf(*old(m)),
        (tid as int) < pre.len(),
        old(m).tasks@ == pre.remove(tid as int).push(extra),
    ensures
        m_wf(*final(m)),
        final(m).chans@ == old(m).chans@,
        final(m).got@ == old(m).got@,
        final(m).tasks@.len() == pre.len() + 1,
        forall|j: int| 0 <= j < pre.len() && j != tid ==> final(m).tasks@[j] == pre[j],
        final(m).tasks@[pre.len() as int] == extra,
        final(m).tasks@[tid as int].job == job,
        final(m).tasks@[tid as int].ctx@ == ctx@,
        final(m).tasks@[tid as int].env@ == env@,
        final(m).tasks@[tid as int].out == out,
        r == r0,
{
    m.tasks.insert(tid, Task { job, ctx, env, out });
    proof {
        let q = pre.remove(tid as int).push(extra);
        assert forall|j: int| 0 <= j < pre.len() && j != tid implies m.tasks@[j] == pre[j] by {
            if j < tid {
                assert(m.tasks@[j] == q[j]);
            } else {
                assert(m.tasks@[j] == q[j - 1]);
                assert(q[j - 1] == pre.remove(tid as int)[j - 1]);
            }
        }
        assert(m.tasks@[pre.len() as int] == q[pre.len() as int - 1]);
    }
    r0
}


/// The tasks other than `tid` are exactly as they were, and no task was
/// spawned.
pub open spec fn tasks_framed(pre: Machine, post: Machine, tid: int) -> bool {
    &&& post.tasks@.len() == pre.tasks@.len()
    &&& forall|j: int| 0 <= j < pre.tasks@.len() && j != tid ==> post.tasks@[j] == pre.tasks@[j]
}

/// The tasks other than `tid` are exactly as they were, and exactly one
/// task was spawned at the end.
pub open spec fn tasks_framed_spawn(pre: Machine, post: Machine, tid: int) -> bool {
    &&& post.tasks@.len() == pre.tasks@.len() + 1
    &&& forall|j: int| 0 <= j < pre.tasks@.len() && j != tid ==> post.tasks@[j] == pre.tasks@[j]
}

/// Task `tid` now has exactly this job, context, environment and output
/// endpoint.
pub open spec fn task_is(post: Machine, tid: int, job: Job, ctx: Seq<Slot>, env: Seq<Option<Value>>, out: usize) -> bool {
    &&& post.tasks@[tid].job == job
    &&& post.tasks@[tid].ctx@ == ctx
    &&& post.tasks@[tid].env@ == env
    &&& post.tasks@[tid].out == out
}

/// The spawned task at position `idx` runs this job over an empty
/// context and environment, driving this output endpoint.
pub open spec fn spawned_is(post: Machine, idx: int, job: Job, out: usize) -> bool {
    &&& post.tasks@[idx].job == job
    &&& post.tasks@[idx].ctx@ == Seq::<Slot>::empty()
    &&& post.tasks@[idx].env@ == Seq::<Option<Value>>::empty()
    &&& post.tasks@[idx].out == out
}

/// The channel store and the audit trail are exactly as they were.
pub open spec fn store_same(pre: Machine, post: Machine) -> bool {
    &&& post.chans@.len() == pre.chans@.len()
    &&& (forall|j: int| 0 <= j < pre.chans@.len() ==> post.chans@[j] == pre.chans@[j])
    &&& post.got@.len() == pre.got@.len()
    &&& (forall|j: int| 0 <= j < pre.got@.len() ==> post.got@[j] == pre.got@[j])
}

/// Nothing observable happened: task `tid` and the whole store are as
/// they were.
pub open spec fn machine_same(pre: Machine, post: Machine, tid: int) -> bool {
    &&& tasks_framed(pre, post, tid)
    &&& task_is(post, tid, pre.tasks@[tid].job, pre.tasks@[tid].ctx@, pre.tasks@[tid].env@, pre.tasks@[tid].out)
    &&& store_same(pre, post)
}

/// The step failed loudly: task `tid` is finished, its resources and the
/// store untouched, and the given error is reported.
pub open spec fn step_failed(pre: Machine, post: Machine, tid: int, r: StepOutcome, e: RunError) -> bool {
    &&& r == StepOutcome::Failed(e)
    &&& tasks_framed(pre, post, tid)
    &&& task_is(post, tid, Job::Done, pre.tasks@[tid].ctx@, pre.tasks@[tid].env@, pre.tasks@[tid].out)
    &&& store_same(pre, post)
}

/// The step is waiting for a peer: nothing observable happened and the
/// task will be re-run.
pub open spec fn step_blocked(pre: Machine, post: Machine, tid: int, r: StepOutcome) -> bool {
    &&& r is Blocked
    &&& machine_same(pre, post, tid)
}

/// The one value of channel `c` was received; nothing else of the store
/// changed, and the audit records the delivery.
pub open spec fn store_recv(pre: Machine, post: Machine, c: int) -> bool {
    &&& post.chans@.len() == pre.chans@.len()
    &&& (forall|j: int| 0 <= j < pre.chans@.len() && j != c ==> post.chans@[j] == pre.chans@[j])
    &&& chan_spent(post.chans@[c])
    &&& post.got@.len() == pre.got@.len()
    &&& (forall|j: int| 0 <= j < pre.got@.len() && j != c ==> post.got@[j] == pre.got@[j])
    &&& post.got@[c] == true
}

/// Exactly one value was sent, on channel `s`; nothing else changed.
pub open spec fn store_send(pre: Machine, post: Machine, s: int, v: Value) -> bool {
    &&& post.chans@.len() == pre.chans@.len()
    &&& (forall|j: int| 0 <= j < pre.chans@.len() && j != s ==> post.chans@[j] == pre.chans@[j])
    &&& chan_holds(post.chans@[s], v)
    &&& post.got@.len() == pre.got@.len()
    &&& (forall|j: int| 0 <= j < pre.got@.len() ==> post.got@[j] == pre.got@[j])
}

/// One fresh channel was appended; nothing else changed.
pub open spec fn store_alloc(pre: Machine, post: Machine) -> bool {
    &&& post.chans@.len() == pre.chans@.len() + 1
    &&& (forall|j: int| 0 <= j < pre.chans@.len() ==> post.chans@[j] == pre.chans@[j])
    &&& chan_fresh(post.chans@[pre.chans@.len() as int])
    &&& post.got@.len() == pre.got@.len() + 1
    &&& (forall|j: int| 0 <= j < pre.got@.len() ==> post.got@[j] == pre.got@[j])
    &&& post.got@[pre.got@.len() as int] == false
}

/// One fresh channel was appended and one value sent on channel `s`;
/// nothing else changed.
pub open spec fn store_alloc_send(pre: Machine, post: Machine, s: int, v: Value) -> bool {
    &&& post.chans@.len() == pre.chans@.len() + 1
    &&& (forall|j: int| 0 <= j < pre.chans@.len() && j != s ==> post.chans@[j] == pre.chans@[j])
    &&& chan_holds(post.chans@[s], v)
    &&& (s != pre.chans@.len() ==> chan_fresh(post.chans@[pre.chans@.len() as int]))
    &&& post.got@.len() == pre.got@.len() + 1
    &&& (forall|j: int| 0 <= j < pre.got@.len() ==> post.got@[j] == pre.got@[j])
    &&& post.got@[pre.got@.len() as int] == false
}

/// The one value of channel `c` was received and one value sent on
/// channel `s`; nothing else changed, and the audit records the
/// delivery.
pub open spec fn store_recv_send(pre: Machine, post: Machine, c: int, s: int, v: Value) -> bool {
    &&& post.chans@.len() == pre.chans@.len()
    &&& (forall|j: int| 0 <= j < pre.chans@.len() && j != c && j != s ==> post.chans@[j] == pre.chans@[j])
    &&& chan_spent(post.chans@[c])
    &&& chan_holds(post.chans@[s], v)
    &&& post.got@.len() == pre.got@.len()
    &&& (forall|j: int| 0 <= j < pre.got@.len() && j != c ==> post.got@[j] == pre.got@[j])
    &&& post.got@[c] == true
}

/// The one value of channel `c` was received, one fresh channel was
/// appended, and one value sent on channel `s` (possibly the fresh one);
/// nothing else changed.
pub open spec fn store_recv_alloc_send(pre: Machine, post: Machine, c: int, s: int, v: Value) -> bool {
    &&& post.chans@.len() == pre.chans@.len() + 1
    &&& (forall|j: int| 0 <= j < pre.chans@.len() && j != c && j != s ==> post.chans@[j] == pre.chans@[j])
    &&& chan_spent(post.chans@[c])
    &&& chan_holds(post.chans@[s], v)
    &&& post.got@.len() == pre.got@.len() + 1
    &&& (forall|j: int| 0 <= j < pre.got@.len() && j != c ==> post.got@[j] == pre.got@[j])
    &&& post.got@[c] == true
    &&& post.got@[pre.got@.len() as int] == false
}

/// Whether a payload expression can be evaluated against this
/// environment.
pub open spec fn eval_ok(env: Seq<Option<Value>>, e: Expr) -> bool {
    match e {
        Expr::Lit(_) => true,
        Expr::Var(i) => (i as int) < env.len() && env[env.len() - 1 - (i as int)] is Some,
    }
}

/// The value a payload expression evaluates to.
pub open spec fn eval_val(env: Seq<Option<Value>>, e: Expr) -> Value {
    match e {
        Expr::Lit(v) => v,
        Expr::Var(i) => env[env.len() - 1 - (i as int)].unwrap(),
    }
}

/// The environment after evaluating a payload expression: reading a
/// binding consumes it.
pub open spec fn eval_env(env: Seq<Option<Value>>, e: Expr) -> Seq<Option<Value>> {
    match e {
        Expr::Lit(_) => env,
        Expr::Var(i) => env.update(env.len() - 1 - (i as int), None),
    }
}

/// The transition relation of one step of task `tid`, keyed on the
/// task's job.  For each job it pins down, from the state of the
/// channels the step looks at: when the step succeeds and exactly what
/// it then did to the task, the store and the audit; when it blocks,
/// leaving everything untouched; and that a receive from a channel
/// whose peer is gone fails the session with a delivery failure.  Steps
/// on states that break a construction contract fail loudly and are not
/// further constrained here.
pub open spec fn step_rel(pre: Machine, tid: int, post: Machine, r: StepOutcome) -> bool {
    let t = pre.tasks@[tid];
    let ln = pre.chans@.len() as int;
    let lnu = pre.chans@.len() as usize;
    match t.job {
        Job::Done => r is Idle && machine_same(pre, post, tid),
        Job::FixWrap { from } => {
            let f = from as int;
            let msg = chan_msgs(pre.chans@[f])[0];
            &&& (f < ln && chan_fresh(pre.chans@[f]) ==> step_blocked(pre, post, tid, r))
            &&& (f < ln && chan_spent(pre.chans@[f]) ==> step_failed(
                pre, post, tid, r, RunError::DeliveryFailure,
            ))
            &&& (f < ln && chan_msgs(pre.chans@[f]).len() == 1 && (t.out as int) < ln
                && chan_open(pre.chans@[t.out as int]) ==> {
                &&& r is Progressed
                &&& tasks_framed(pre, post, tid)
                &&& task_is(post, tid, Job::Done, t.ctx@, t.env@, t.out)
                &&& store_recv_send(pre, post, f, t.out as int, Value::Fix(Box::new(msg)))
            })
        },
        Job::AwaitChannel { chan, slot, cont } => {
            let ch = chan as int;
            let msg = chan_msgs(pre.chans@[ch])[0];
            let ac = (*msg->Pair_0)->Chan_0;
            let bc = (*msg->Pair_1)->Chan_0;
            let slot_fits = match slot {
                None => true,
                Some(i) => (i as int) < t.ctx@.len() && t.ctx@[i as int] is Empty,
            };
            &&& (ch < ln && chan_fresh(pre.chans@[ch]) ==> step_blocked(pre, post, tid, r))
            &&& (ch < ln && chan_spent(pre.chans@[ch]) ==> step_failed(
                pre, post, tid, r, RunError::DeliveryFailure,
            ))
            &&& (ch < ln && chan_msgs(pre.chans@[ch]).len() == 1 && msg is Pair
                && (*msg->Pair_0) is Chan && (*msg->Pair_1) is Chan
                && (ac as int) < ln && (bc as int) < ln && slot_fits ==> {
                &&& r is Progressed
                &&& tasks_framed(pre, post, tid)
                &&& task_is(post, tid, Job::Run(*cont), match slot {
                    None => t.ctx@.push(Slot::Held(ac)),
                    Some(i) => t.ctx@.update(i as int, Slot::Held(ac)),
                }, t.env@, bc)
                &&& store_recv(pre, post, ch)
            })
        },
        Job::Run(p) => match p {
            PartialSession::Terminate => {
                (forall|j: int| 0 <= j < t.ctx@.len() ==> t.ctx@[j] is Empty) && (t.out as int) < ln
                    && chan_open(pre.chans@[t.out as int]) ==> {
                    &&& r is Progressed
                    &&& tasks_framed(pre, post, tid)
                    &&& task_is(post, tid, Job::Done, t.ctx@, t.env@, t.out)
                    &&& store_send(pre, post, t.out as int, Value::Unit)
                }
            },
            PartialSession::SendValue(e, cnt) => {
                eval_ok(t.env@, e) && (t.out as int) < ln && chan_open(pre.chans@[t.out as int])
                    ==> {
                    &&& r is Progressed
                    &&& tasks_framed(pre, post, tid)
                    &&& task_is(post, tid, Job::Run(*cnt), t.ctx@, eval_env(t.env@, e), lnu)
                    &&& store_alloc_send(pre, post, t.out as int, Value::Pair(
                        Box::new(eval_val(t.env@, e)),
                        Box::new(Value::Chan(lnu)),
                    ))
                }
            },
            PartialSession::ReceiveValueFrom(i, cnt) => {
                let held = (i as int) < t.ctx@.len() && t.ctx@[i as int] is Held;
                let c = t.ctx@[i as int]->Held_0 as int;
                let msg = chan_msgs(pre.chans@[c])[0];
                let c2 = (*msg->Pair_1)->Chan_0;
                &&& (held && c < ln && chan_fresh(pre.chans@[c]) ==> step_blocked(pre, post, tid, r))
                &&& (held && c < ln && chan_spent(pre.chans@[c]) ==> step_failed(
                    pre, post, tid, r, RunError::DeliveryFailure,
                ))
                &&& (held && c < ln && chan_msgs(pre.chans@[c]).len() == 1 && msg is Pair
                    && (*msg->Pair_1) is Chan && (c2 as int) < ln ==> {
                    &&& r is Progressed
                    &&& tasks_framed(pre, post, tid)
                    &&& task_is(post, tid, Job::Run(*cnt), t.ctx@.update(i as int, Slot::Held(c2)),
                        t.env@.push(Some(*msg->Pair_0)), t.out)
                    &&& store_recv(pre, post, c)
                })
            },
            PartialSession::ReceiveChannel(cnt) => {
                (t.out as int) < ln && chan_open(pre.chans@[t.out as int]) ==> {
                    &&& r is Progressed
                    &&& tasks_framed(pre, post, tid)
                    &&& task_is(post, tid, Job::AwaitChannel { chan: lnu, slot: None, cont: cnt },
                        t.ctx@, t.env@, t.out)
                    &&& store_alloc_send(pre, post, t.out as int, Value::Chan(lnu))
                }
            },
            PartialSession::ReceiveChannelSlot(i, cnt) => {
                (t.out as int) < ln && chan_open(pre.chans@[t.out as int]) ==> {
                    &&& r is Progressed
                    &&& tasks_framed(pre, post, tid)
                    &&& task_is(post, tid, Job::AwaitChannel {
                        chan: lnu,
                        slot: Some(i),
                        cont: cnt,
                    }, t.ctx@, t.env@, t.out)
                    &&& store_alloc_send(pre, post, t.out as int, Value::Chan(lnu))
                }
            },
            PartialSession::SendChannelTo(n1, n2, cnt) => {
                let held = (n1 as int) < t.ctx@.len() && t.ctx@[n1 as int] is Held
                    && (n2 as int) < t.ctx@.len() && t.ctx@[n2 as int] is Held;
                let rc = t.ctx@[n1 as int]->Held_0 as int;
                let a1 = t.ctx@[n2 as int]->Held_0;
                let msg = chan_msgs(pre.chans@[rc])[0];
                let rq = msg->Chan_0 as int;
                &&& (held && rc < ln && chan_fresh(pre.chans@[rc]) ==> step_blocked(pre, post, tid, r))
                &&& (held && rc < ln && chan_spent(pre.chans@[rc]) ==> step_failed(
                    pre, post, tid, r, RunError::DeliveryFailure,
                ))
                &&& (held && n1 != n2 && rc < ln && chan_msgs(pre.chans@[rc]).len() == 1
                    && msg is Chan && rq < ln && chan_open(pre.chans@[rq]) ==> {
                    &&& r is Progressed
                    &&& tasks_framed(pre, post, tid)
                    &&& task_is(post, tid, Job::Run(*cnt), t.ctx@.update(n2 as int, Slot::Empty)
                        .update(n1 as int, Slot::Held(lnu)), t.env@, t.out)
                    &&& store_recv_alloc_send(pre, post, rc, rq, Value::Pair(
                        Box::new(Value::Chan(a1)),
                        Box::new(Value::Chan(lnu)),
                    ))
                })
            },
            PartialSession::SendChannelFrom(n, cnt) => {
                let a = t.ctx@[n as int]->Held_0;
                (n as int) < t.ctx@.len() && t.ctx@[n as int] is Held && (t.out as int) < ln
                    && chan_open(pre.chans@[t.out as int]) ==> {
                    &&& r is Progressed
                    &&& tasks_framed(pre, post, tid)
                    &&& task_is(post, tid, Job::Run(*cnt), t.ctx@.update(n as int, Slot::Empty),
                        t.env@, lnu)
                    &&& store_alloc_send(pre, post, t.out as int, Value::Pair(
                        Box::new(Value::Chan(a)),
                        Box::new(Value::Chan(lnu)),
                    ))
                }
            },
            PartialSession::ReceiveChannelFrom(i, cnt) => {
                let held = (i as int) < t.ctx@.len() && t.ctx@[i as int] is Held;
                let c = t.ctx@[i as int]->Held_0 as int;
                let msg = chan_msgs(pre.chans@[c])[0];
                let ac = (*msg->Pair_0)->Chan_0;
                let c2 = (*msg->Pair_1)->Chan_0;
                &&& (held && c < ln && chan_fresh(pre.chans@[c]) ==> step_blocked(pre, post, tid, r))
                &&& (held && c < ln && chan_spent(pre.chans@[c]) ==> step_failed(
                    pre, post, tid, r, RunError::DeliveryFailure,
                ))
                &&& (held && c < ln && chan_msgs(pre.chans@[c]).len() == 1 && msg is Pair
                    && (*msg->Pair_0) is Chan && (*msg->Pair_1) is Chan
                    && (ac as int) < ln && (c2 as int) < ln ==> {
                    &&& r is Progressed
                    &&& tasks_framed(pre, post, tid)
                    &&& task_is(post, tid, Job::Run(*cnt), t.ctx@.update(i as int, Slot::Held(c2))
                        .push(Slot::Held(ac)), t.env@, t.out)
                    &&& store_recv(pre, post, c)
                })
            },
            PartialSession::Wait(i, cnt) => {
                let held = (i as int) < t.ctx@.len() && t.ctx@[i as int] is Held;
                let c = t.ctx@[i as int]->Held_0 as int;
                &&& (held && c < ln && chan_fresh(pre.chans@[c]) ==> step_blocked(pre, post, tid, r))
                &&& (held && c < ln && chan_spent(pre.chans@[c]) ==> step_failed(
                    pre, post, tid, r, RunError::DeliveryFailure,
                ))
                &&& (held && c < ln && chan_msgs(pre.chans@[c]).len() == 1
                    && chan_msgs(pre.chans@[c])[0] is Unit ==> {
                    &&& r is Progressed
                    &&& tasks_framed(pre, post, tid)
                    &&& task_is(post, tid, Job::Run(*cnt), t.ctx@.update(i as int, Slot::Empty),
                        t.env@, t.out)
                    &&& store_recv(pre, post, c)
                })
            },
            PartialSession::OfferBranch(k, n, cnt) => {
                k < n && (t.out as int) < ln && chan_open(pre.chans@[t.out as int]) ==> {
                    &&& r is Progressed
                    &&& tasks_framed(pre, post, tid)
                    &&& task_is(post, tid, Job::Run(*cnt), t.ctx@, t.env@, lnu)
                    &&& store_alloc_send(pre, post, t.out as int, spec_intro_sum(
                        k as int,
                        n as int,
                        Value::Chan(lnu),
                    ))
                }
            },
            PartialSession::Case(i, branches) => {
                let held = (i as int) < t.ctx@.len() && t.ctx@[i as int] is Held;
                let c = t.ctx@[i as int]->Held_0 as int;
                let msg = chan_msgs(pre.chans@[c])[0];
                let rs = spec_resolve_sum(branches@.len() as int, msg);
                let k = rs.unwrap().0;
                let c2 = rs.unwrap().1->Chan_0;
                &&& (branches@.len() >= 1 && held && c < ln && chan_fresh(pre.chans@[c])
                    ==> step_blocked(pre, post, tid, r))
                &&& (branches@.len() >= 1 && held && c < ln && chan_spent(pre.chans@[c])
                    ==> step_failed(pre, post, tid, r, RunError::DeliveryFailure))
                &&& (branches@.len() >= 1 && held && c < ln
                    && chan_msgs(pre.chans@[c]).len() == 1 && rs is Some
                    && 0 <= k < branches@.len() && rs.unwrap().1 is Chan && (c2 as int) < ln ==> {
                    &&& r is Progressed
                    &&& tasks_framed(pre, post, tid)
                    &&& task_is(post, tid, Job::Run(branches@[k]), t.ctx@.update(
                        i as int,
                        Slot::Held(c2),
                    ), t.env@, t.out)
                    &&& store_recv(pre, post, c)
                })
            },
            PartialSession::Fix(cnt) => {
                (t.out as int) < ln ==> {
                    &&& r is Progressed
                    &&& tasks_framed_spawn(pre, post, tid)
                    &&& task_is(post, tid, Job::Run(*cnt), t.ctx@, t.env@, lnu)
                    &&& spawned_is(post, pre.tasks@.len() as int, Job::FixWrap { from: lnu }, t.out)
                    &&& store_alloc(pre, post)
                }
            },
            PartialSession::Unfix(i, cnt) => {
                let held = (i as int) < t.ctx@.len() && t.ctx@[i as int] is Held;
                let c = t.ctx@[i as int]->Held_0 as int;
                let msg = chan_msgs(pre.chans@[c])[0];
                &&& (held && c < ln && chan_fresh(pre.chans@[c]) ==> step_blocked(pre, post, tid, r))
                &&& (held && c < ln && chan_spent(pre.chans@[c]) ==> step_failed(
                    pre, post, tid, r, RunError::DeliveryFailure,
                ))
                &&& (held && c < ln && chan_msgs(pre.chans@[c]).len() == 1 && msg is Fix ==> {
                    &&& r is Progressed
                    &&& tasks_framed(pre, post, tid)
                    &&& task_is(post, tid, Job::Run(*cnt), t.ctx@.update(i as int, Slot::Held(lnu)),
                        t.env@, t.out)
                    &&& store_recv_alloc_send(pre, post, c, ln, *msg->Fix_0)
                })
            },
            PartialSession::Link(q, cnt) => {
                &&& r is Progressed
                &&& tasks_framed_spawn(pre, post, tid)
                &&& task_is(post, tid, Job::Run(*cnt), t.ctx@.push(Slot::Held(lnu)), t.env@, t.out)
                &&& spawned_is(post, pre.tasks@.len() as int, Job::Run(*q), lnu)
                &&& store_alloc(pre, post)
            },
            PartialSession::Invalid => step_failed(pre, post, tid, r, RunError::ConstructionViolation),
        },
    }
}

/// Performs one step of one task: at most one channel interaction, plus
/// the context bookkeeping it entails.  The channel store only ever
/// moves forward: no channel is sent on or received from twice, whatever
/// the step does.
#[verifier::rlimit(100)]
pub fn step_task(m: &mut Machine, tid: usize) -> (r: StepOutcome)
    requires
        m_wf(*old(m)),
        tid < old(m).tasks@.len(),
    ensures
        m_wf(*final(m)),
        final(m).tasks@.len() >= old(m).tasks@.len(),
        store_evolves(old(m).chans@, final(m).chans@),
        step_rel(*old(m), tid as int, *final(m), r),
{
    let t = m.tasks.remove(tid);
    let Task { job, mut ctx, mut env, mut out } = t;
    match job {
        Job::Done => return park(m, tid, Job::Done, ctx, env, out, StepOutcome::Idle, Ghost(old(m).tasks@)),
        Job::FixWrap { from } => {
            if from >= m.chans.len() {
                return park(m, tid, Job::Done, ctx, env, out, StepOutcome::Failed(RunError::ConstructionViolation), Ghost(old(m).tasks@));
            }
            match recv_from(&mut m.chans, &mut m.got, from) {
                RecvOutcome::Got(v) => {
                    if out >= m.chans.len() {
                        return park(m, tid, Job::Done, ctx, env, out, StepOutcome::Failed(RunError::ConstructionViolation), Ghost(old(m).tasks@));
                    }
                    let ghost s1 = m.chans@;
                    let ok = send_to(&mut m.chans, out, Value::Fix(Box::new(v)));
                    proof { lemma_store_evolves_trans(old(m).chans@, s1, m.chans@); }
                    if ok {
                        return park(m, tid, Job::Done, ctx, env, out, StepOutcome::Progressed, Ghost(old(m).tasks@));
                    } else {
                        proof {
                            if out != from {
                                assert(s1[out as int] == old(m).chans@[out as int]);
                            }
                        }
                        return park(m, tid, Job::Done, ctx, env, out, StepOutcome::Failed(RunError::ConstructionViolation), Ghost(old(m).tasks@));
                    }
                },
                RecvOutcome::Pending => return park(m, tid, Job::FixWrap { from }, ctx, env, out, StepOutcome::Blocked, Ghost(old(m).tasks@)),
                RecvOutcome::Gone => return park(m, tid, Job::Done, ctx, env, out, StepOutcome::Failed(RunError::DeliveryFailure), Ghost(old(m).tasks@)),
            }
        },
        Job::AwaitChannel { chan, slot, cont } => {
            if chan >= m.chans.len() {
                return park(m, tid, Job::Done, ctx, env, out, StepOutcome::Failed(RunError::ConstructionViolation), Ghost(old(m).tasks@));
            }
            match recv_from(&mut m.chans, &mut m.got, chan) {
                RecvOutcome::Got(v) => match v {
                    Value::Pair(a, b) => match (*a, *b) {
                        (Value::Chan(ac), Value::Chan(bc)) => {
                            if ac >= m.chans.len() || bc >= m.chans.len() {
                                return park(m, tid, Job::Done, ctx, env, out, StepOutcome::Failed(RunError::ProtocolViolation), Ghost(old(m).tasks@));
                            }
                            match slot {
                                None => {
                                    append_context(&mut ctx, ac);
                                },
                                Some(i) => {
                                    if !insert_target(&mut ctx, i, ac) {
                                        return park(m, tid, Job::Done, ctx, env, out, StepOutcome::Failed(RunError::ConstructionViolation), Ghost(old(m).tasks@));
                                    }
                                },
                            }
                            out = bc;
                            return park(m, tid, Job::Run(*cont), ctx, env, out, StepOutcome::Progressed, Ghost(old(m).tasks@));
                        },
                        _ => return park(m, tid, Job::Done, ctx, env, out, StepOutcome::Failed(RunError::ProtocolViolation), Ghost(old(m).tasks@)),
                    },
                    _ => return park(m, tid, Job::Done, ctx, env, out, StepOutcome::Failed(RunError::ProtocolViolation), Ghost(old(m).tasks@)),
                },
                RecvOutcome::Pending => return park(m, tid, Job::AwaitChannel { chan, slot, cont }, ctx, env, out, StepOutcome::Blocked, Ghost(old(m).tasks@)),
                RecvOutcome::Gone => return park(m, tid, Job::Done, ctx, env, out, StepOutcome::Failed(RunError::DeliveryFailure), Ghost(old(m).tasks@)),
            }
        },
        Job::Run(p) => match p {
            PartialSession::Terminate => {
                if !ctx_all_empty(&ctx) {
                    return park(m, tid, Job::Done, ctx, env, out, StepOutcome::Failed(RunError::ConstructionViolation), Ghost(old(m).tasks@));
                }
                if out >= m.chans.len() {
                    return park(m, tid, Job::Done, ctx, env, out, StepOutcome::Failed(RunError::ConstructionViolation), Ghost(old(m).tasks@));
                }
                let ok = send_to(&mut m.chans, out, Value::Unit);
                if ok {
                    return park(m, tid, Job::Done, ctx, env, out, StepOutcome::Progressed, Ghost(old(m).tasks@));
                } else {
                    proof {
                        assert(!chan_open(old(m).chans@[out as int]));
                    }
                    return park(m, tid, Job::Done, ctx, env, out, StepOutcome::Failed(RunError::ConstructionViolation), Ghost(old(m).tasks@));
                }
            },
            PartialSession::SendValue(e, cont) => {
                let v = match eval_expr(&mut env, e) {
                    Some(v) => v,
                    None => {
                        return park(m, tid, Job::Done, ctx, env, out, StepOutcome::Failed(RunError::ConstructionViolation), Ghost(old(m).tasks@));
                    },
                };
                if out >= m.chans.len() {
                    return park(m, tid, Job::Done, ctx, env, out, StepOutcome::Failed(RunError::ConstructionViolation), Ghost(old(m).tasks@));
                }
                let c2 = alloc_chan(&mut m.chans, &mut m.got);
                let ghost s1 = m.chans@;
                let ok = send_to(&mut m.chans, out, Value::Pair(Box::new(v), Box::new(Value::Chan(c2))));
                proof { lemma_store_evolves_trans(old(m).chans@, s1, m.chans@); }
                if ok {
                    out = c2;
                    return park(m, tid, Job::Run(*cont), ctx, env, out, StepOutcome::Progressed, Ghost(old(m).tasks@));
                } else {
                    proof {
                        assert(s1[out as int] == old(m).chans@[out as int]);
                    }
                    return park(m, tid, Job::Done, ctx, env, out, StepOutcome::Failed(RunError::ConstructionViolation), Ghost(old(m).tasks@));
                }
            },
            PartialSession::ReceiveValueFrom(i, cont) => {
                let c = match peek_slot(&ctx, i) {
                    Some(c) => c,
                    None => {
                        return park(m, tid, Job::Done, ctx, env, out, StepOutcome::Failed(RunError::ConstructionViolation), Ghost(old(m).tasks@));
                    },
                };
                if c >= m.chans.len() {
                    return park(m, tid, Job::Done, ctx, env, out, StepOutcome::Failed(RunError::ConstructionViolation), Ghost(old(m).tasks@));
                }
                match recv_from(&mut m.chans, &mut m.got, c) {
                    RecvOutcome::Got(v) => match v {
                        Value::Pair(pv, rest) => match *rest {
                            Value::Chan(c2) => {
                                if c2 >= m.chans.len() {
                                    return park(m, tid, Job::Done, ctx, env, out, StepOutcome::Failed(RunError::ProtocolViolation), Ghost(old(m).tasks@));
                                }
                                env.push(Some(*pv));
                                match extract_source(&mut ctx, i) {
                                    Some(_) => {},
                                    None => {
                                        return park(m, tid, Job::Done, ctx, env, out, StepOutcome::Failed(RunError::ConstructionViolation), Ghost(old(m).tasks@));
                                    },
                                }
                                if !insert_target(&mut ctx, i, c2) {
                                    return park(m, tid, Job::Done, ctx, env, out, StepOutcome::Failed(RunError::ConstructionViolation), Ghost(old(m).tasks@));
                                }
                                proof {
                                    lemma_split_merge_inverse(old(m).tasks@[tid as int].ctx@, i as int, c2);
                                }
                                return park(m, tid, Job::Run(*cont), ctx, env, out, StepOutcome::Progressed, Ghost(old(m).tasks@));
                            },
                            _ => return park(m, tid, Job::Done, ctx, env, out, StepOutcome::Failed(RunError::ProtocolViolation), Ghost(old(m).tasks@)),
                        },
                        _ => return park(m, tid, Job::Done, ctx, env, out, StepOutcome::Failed(RunError::ProtocolViolation), Ghost(old(m).tasks@)),
                    },
                    RecvOutcome::Pending => return park(m, tid, Job::Run(PartialSession::ReceiveValueFrom(i, cont)), ctx, env, out, StepOutcome::Blocked, Ghost(old(m).tasks@)),
                    RecvOutcome::Gone => return park(m, tid, Job::Done, ctx, env, out, StepOutcome::Failed(RunError::DeliveryFailure), Ghost(old(m).tasks@)),
                }
            },
            PartialSession::ReceiveChannel(cont) => {
                if out >= m.chans.len() {
                    return park(m, tid, Job::Done, ctx, env, out, StepOutcome::Failed(RunError::ConstructionViolation), Ghost(old(m).tasks@));
                }
                let rch = alloc_chan(&mut m.chans, &mut m.got);
                let ghost s1 = m.chans@;
                let ok = send_to(&mut m.chans, out, Value::Chan(rch));
                proof { lemma_store_evolves_trans(old(m).chans@, s1, m.chans@); }
                if ok {
                    return park(m, tid, Job::AwaitChannel { chan: rch, slot: None, cont }, ctx, env, out, StepOutcome::Progressed, Ghost(old(m).tasks@));
                } else {
                    proof {
                        assert(s1[out as int] == old(m).chans@[out as int]);
                    }
                    return park(m, tid, Job::Done, ctx, env, out, StepOutcome::Failed(RunError::ConstructionViolation), Ghost(old(m).tasks@));
                }
            },
            PartialSession::ReceiveChannelSlot(i, cont) => {
                if out >= m.chans.len() {
                    return park(m, tid, Job::Done, ctx, env, out, StepOutcome::Failed(RunError::ConstructionViolation), Ghost(old(m).tasks@));
                }
                let rch = alloc_chan(&mut m.chans, &mut m.got);
                let ghost s1 = m.chans@;
                let ok = send_to(&mut m.chans, out, Value::Chan(rch));
                proof { lemma_store_evolves_trans(old(m).chans@, s1, m.chans@); }
                if ok {
                    return park(m, tid, Job::AwaitChannel { chan: rch, slot: Some(i), cont }, ctx, env, out, StepOutcome::Progressed, Ghost(old(m).tasks@));
                } else {
                    proof {
                        assert(s1[out as int] == old(m).chans@[out as int]);
                    }
                    return park(m, tid, Job::Done, ctx, env, out, StepOutcome::Failed(RunError::ConstructionViolation), Ghost(old(m).tasks@));
                }
            },
            PartialSession::SendChannelTo(n1, n2, cont) => {
                let rc = match peek_slot(&ctx, n1) {
                    Some(c) => c,
                    None => {
                        return park(m, tid, Job::Done, ctx, env, out, StepOutcome::Failed(RunError::ConstructionViolation), Ghost(old(m).tasks@));
                    },
                };
                let a1 = match peek_slot(&ctx, n2) {
                    Some(c) => c,
                    None => {
                        return park(m, tid, Job::Done, ctx, env, out, StepOutcome::Failed(RunError::ConstructionViolation), Ghost(old(m).tasks@));
                    },
                };
                if rc >= m.chans.len() {
                    return park(m, tid, Job::Done, ctx, env, out, StepOutcome::Failed(RunError::ConstructionViolation), Ghost(old(m).tasks@));
                }
                match recv_from(&mut m.chans, &mut m.got, rc) {
                    RecvOutcome::Got(v) => match v {
                        Value::Chan(rq) => {
                            if rq >= m.chans.len() {
                                return park(m, tid, Job::Done, ctx, env, out, StepOutcome::Failed(RunError::ProtocolViolation), Ghost(old(m).tasks@));
                            }
                            let ghost s1 = m.chans@;
                            let c3 = alloc_chan(&mut m.chans, &mut m.got);
                            proof { lemma_store_evolves_trans(old(m).chans@, s1, m.chans@); }
                            let ghost s2 = m.chans@;
                            let ok = send_to(&mut m.chans, rq, Value::Pair(Box::new(Value::Chan(a1)), Box::new(Value::Chan(c3))));
                            proof { lemma_store_evolves_trans(old(m).chans@, s2, m.chans@); }
                            if !ok {
                                proof {
                                    if rq != rc {
                                        assert(s2[rq as int] == old(m).chans@[rq as int]);
                                    }
                                }
                                return park(m, tid, Job::Done, ctx, env, out, StepOutcome::Failed(RunError::ConstructionViolation), Ghost(old(m).tasks@));
                            }
                            match extract_source(&mut ctx, n2) {
                                Some(_) => {},
                                None => {
                                    return park(m, tid, Job::Done, ctx, env, out, StepOutcome::Failed(RunError::ConstructionViolation), Ghost(old(m).tasks@));
                                },
                            }
                            match extract_source(&mut ctx, n1) {
                                Some(_) => {},
                                None => {
                                    return park(m, tid, Job::Done, ctx, env, out, StepOutcome::Failed(RunError::ConstructionViolation), Ghost(old(m).tasks@));
                                },
                            }
                            if !insert_target(&mut ctx, n1, c3) {
                                return park(m, tid, Job::Done, ctx, env, out, StepOutcome::Failed(RunError::ConstructionViolation), Ghost(old(m).tasks@));
                            }
                            proof {
                                lemma_split_merge_inverse(
                                    old(m).tasks@[tid as int].ctx@.update(n2 as int, Slot::Empty),
                                    n1 as int,
                                    c3,
                                );
                            }
                            return park(m, tid, Job::Run(*cont), ctx, env, out, StepOutcome::Progressed, Ghost(old(m).tasks@));
                        },
                        _ => return park(m, tid, Job::Done, ctx, env, out, StepOutcome::Failed(RunError::ProtocolViolation), Ghost(old(m).tasks@)),
                    },
                    RecvOutcome::Pending => return park(m, tid, Job::Run(PartialSession::SendChannelTo(n1, n2, cont)), ctx, env, out, StepOutcome::Blocked, Ghost(old(m).tasks@)),
                    RecvOutcome::Gone => return park(m, tid, Job::Done, ctx, env, out, StepOutcome::Failed(RunError::DeliveryFailure), Ghost(old(m).tasks@)),
                }
            },
            PartialSession::SendChannelFrom(n, cont) => {
                let a = match extract_source(&mut ctx, n) {
                    Some(a) => a,
                    None => {
                        return park(m, tid, Job::Done, ctx, env, out, StepOutcome::Failed(RunError::ConstructionViolation), Ghost(old(m).tasks@));
                    },
                };
                if out >= m.chans.len() {
                    return park(m, tid, Job::Done, ctx, env, out, StepOutcome::Failed(RunError::ConstructionViolation), Ghost(old(m).tasks@));
                }
                let c2 = alloc_chan(&mut m.chans, &mut m.got);
                let ghost s1 = m.chans@;
                let ok = send_to(&mut m.chans, out, Value::Pair(Box::new(Value::Chan(a)), Box::new(Value::Chan(c2))));
                proof { lemma_store_evolves_trans(old(m).chans@, s1, m.chans@); }
                if ok {
                    out = c2;
                    return park(m, tid, Job::Run(*cont), ctx, env, out, StepOutcome::Progressed, Ghost(old(m).tasks@));
                } else {
                    proof {
                        assert(s1[out as int] == old(m).chans@[out as int]);
                    }
                    return park(m, tid, Job::Done, ctx, env, out, StepOutcome::Failed(RunError::ConstructionViolation), Ghost(old(m).tasks@));
                }
            },
            PartialSession::ReceiveChannelFrom(i, cont) => {
                let c = match peek_slot(&ctx, i) {
                    Some(c) => c,
                    None => {
                        return park(m, tid, Job::Done, ctx, env, out, StepOutcome::Failed(RunError::ConstructionViolation), Ghost(old(m).tasks@));
                    },
                };
                if c >= m.chans.len() {
                    return park(m, tid, Job::Done, ctx, env, out, StepOutcome::Failed(RunError::ConstructionViolation), Ghost(old(m).tasks@));
                }
                match recv_from(&mut m.chans, &mut m.got, c) {
                    RecvOutcome::Got(v) => match v {
                        Value::Pair(a, b) => match (*a, *b) {
                            (Value::Chan(ac), Value::Chan(c2)) => {
                                if ac >= m.chans.len() || c2 >= m.chans.len() {
                                    return park(m, tid, Job::Done, ctx, env, out, StepOutcome::Failed(RunError::ProtocolViolation), Ghost(old(m).tasks@));
                                }
                                match extract_source(&mut ctx, i) {
                                    Some(_) => {},
                                    None => {
                                        return park(m, tid, Job::Done, ctx, env, out, StepOutcome::Failed(RunError::ConstructionViolation), Ghost(old(m).tasks@));
                                    },
                                }
                                if !insert_target(&mut ctx, i, c2) {
                                    return park(m, tid, Job::Done, ctx, env, out, StepOutcome::Failed(RunError::ConstructionViolation), Ghost(old(m).tasks@));
                                }
                                append_context(&mut ctx, ac);
                                proof {
                                    lemma_split_merge_inverse(old(m).tasks@[tid as int].ctx@, i as int, c2);
                                }
                                return park(m, tid, Job::Run(*cont), ctx, env, out, StepOutcome::Progressed, Ghost(old(m).tasks@));
                            },
                            _ => return park(m, tid, Job::Done, ctx, env, out, StepOutcome::Failed(RunError::ProtocolViolation), Ghost(old(m).tasks@)),
                        },
                        _ => return park(m, tid, Job::Done, ctx, env, out, StepOutcome::Failed(RunError::ProtocolViolation), Ghost(old(m).tasks@)),
                    },
                    RecvOutcome::Pending => return park(m, tid, Job::Run(PartialSession::ReceiveChannelFrom(i, cont)), ctx, env, out, StepOutcome::Blocked, Ghost(old(m).tasks@)),
                    RecvOutcome::Gone => return park(m, tid, Job::Done, ctx, env, out, StepOutcome::Failed(RunError::DeliveryFailure), Ghost(old(m).tasks@)),
                }
            },
            PartialSession::Wait(i, cont) => {
                let c = match peek_slot(&ctx, i) {
                    Some(c) => c,
                    None => {
                        return park(m, tid, Job::Done, ctx, env, out, StepOutcome::Failed(RunError::ConstructionViolation), Ghost(old(m).tasks@));
                    },
                };
                if c >= m.chans.len() {
                    return park(m, tid, Job::Done, ctx, env, out, StepOutcome::Failed(RunError::ConstructionViolation), Ghost(old(m).tasks@));
                }
                match recv_from(&mut m.chans, &mut m.got, c) {
                    RecvOutcome::Got(v) => match v {
                        Value::Unit => {
                            match extract_source(&mut ctx, i) {
                                Some(_) => {},
                                None => {
                                    return park(m, tid, Job::Done, ctx, env, out, StepOutcome::Failed(RunError::ConstructionViolation), Ghost(old(m).tasks@));
                                },
                            }
                            return park(m, tid, Job::Run(*cont), ctx, env, out, StepOutcome::Progressed, Ghost(old(m).tasks@));
                        },
                        _ => return park(m, tid, Job::Done, ctx, env, out, StepOutcome::Failed(RunError::ProtocolViolation), Ghost(old(m).tasks@)),
                    },
                    RecvOutcome::Pending => return park(m, tid, Job::Run(PartialSession::Wait(i, cont)), ctx, env, out, StepOutcome::Blocked, Ghost(old(m).tasks@)),
                    RecvOutcome::Gone => return park(m, tid, Job::Done, ctx, env, out, StepOutcome::Failed(RunError::DeliveryFailure), Ghost(old(m).tasks@)),
                }
            },
            PartialSession::OfferBranch(k, n, cont) => {
                if k >= n {
                    return park(m, tid, Job::Done, ctx, env, out, StepOutcome::Failed(RunError::ConstructionViolation), Ghost(old(m).tasks@));
                }
                if out >= m.chans.len() {
                    return park(m, tid, Job::Done, ctx, env, out, StepOutcome::Failed(RunError::ConstructionViolation), Ghost(old(m).tasks@));
                }
                let c2 = alloc_chan(&mut m.chans, &mut m.got);
                let u = intro_sum(k, n, Value::Chan(c2));
                let ghost s1 = m.chans@;
                let ok = send_to(&mut m.chans, out, u);
                proof { lemma_store_evolves_trans(old(m).chans@, s1, m.chans@); }
                if ok {
                    out = c2;
                    return park(m, tid, Job::Run(*cont), ctx, env, out, StepOutcome::Progressed, Ghost(old(m).tasks@));
                } else {
                    proof {
                        assert(s1[out as int] == old(m).chans@[out as int]);
                    }
                    return park(m, tid, Job::Done, ctx, env, out, StepOutcome::Failed(RunError::ConstructionViolation), Ghost(old(m).tasks@));
                }
            },
            PartialSession::Case(i, branches) => {
                if branches.len() == 0 {
                    return park(m, tid, Job::Done, ctx, env, out, StepOutcome::Failed(RunError::ConstructionViolation), Ghost(old(m).tasks@));
                }
                let c = match peek_slot(&ctx, i) {
                    Some(c) => c,
                    None => {
                        return park(m, tid, Job::Done, ctx, env, out, StepOutcome::Failed(RunError::ConstructionViolation), Ghost(old(m).tasks@));
                    },
                };
                if c >= m.chans.len() {
                    return park(m, tid, Job::Done, ctx, env, out, StepOutcome::Failed(RunError::ConstructionViolation), Ghost(old(m).tasks@));
                }
                match recv_from(&mut m.chans, &mut m.got, c) {
                    RecvOutcome::Got(u) => match resolve_sum(branches.len(), u) {
                        Some(kv) => match kv.1 {
                            Value::Chan(c2) => {
                                if c2 >= m.chans.len() {
                                    return park(m, tid, Job::Done, ctx, env, out, StepOutcome::Failed(RunError::ProtocolViolation), Ghost(old(m).tasks@));
                                }
                                match extract_source(&mut ctx, i) {
                                    Some(_) => {},
                                    None => {
                                        return park(m, tid, Job::Done, ctx, env, out, StepOutcome::Failed(RunError::ConstructionViolation), Ghost(old(m).tasks@));
                                    },
                                }
                                if !insert_target(&mut ctx, i, c2) {
                                    return park(m, tid, Job::Done, ctx, env, out, StepOutcome::Failed(RunError::ConstructionViolation), Ghost(old(m).tasks@));
                                }
                                proof {
                                    lemma_split_merge_inverse(old(m).tasks@[tid as int].ctx@, i as int, c2);
                                }
                                let mut branches = branches;
                                let b = branches.remove(kv.0);
                                return park(m, tid, Job::Run(b), ctx, env, out, StepOutcome::Progressed, Ghost(old(m).tasks@));
                            },
                            _ => return park(m, tid, Job::Done, ctx, env, out, StepOutcome::Failed(RunError::ProtocolViolation), Ghost(old(m).tasks@)),
                        },
                        None => return park(m, tid, Job::Done, ctx, env, out, StepOutcome::Failed(RunError::ProtocolViolation), Ghost(old(m).tasks@)),
                    },
                    RecvOutcome::Pending => return park(m, tid, Job::Run(PartialSession::Case(i, branches)), ctx, env, out, StepOutcome::Blocked, Ghost(old(m).tasks@)),
                    RecvOutcome::Gone => return park(m, tid, Job::Done, ctx, env, out, StepOutcome::Failed(RunError::DeliveryFailure), Ghost(old(m).tasks@)),
                }
            },
            PartialSession::Fix(cont) => {
                if out >= m.chans.len() {
                    return park(m, tid, Job::Done, ctx, env, out, StepOutcome::Failed(RunError::ConstructionViolation), Ghost(old(m).tasks@));
                }
                let c2 = alloc_chan(&mut m.chans, &mut m.got);
                m.tasks.push(Task { job: Job::FixWrap { from: c2 }, ctx: Vec::new(), env: Vec::new(), out });
                let ghost spawned = m.tasks@[m.tasks@.len() - 1];
                out = c2;
                return park_spawn(m, tid, Job::Run(*cont), ctx, env, out, StepOutcome::Progressed, Ghost(old(m).tasks@), Ghost(spawned));
            },
            PartialSession::Unfix(i, cont) => {
                let c = match peek_slot(&ctx, i) {
                    Some(c) => c,
                    None => {
                        return park(m, tid, Job::Done, ctx, env, out, StepOutcome::Failed(RunError::ConstructionViolation), Ghost(old(m).tasks@));
                    },
                };
                if c >= m.chans.len() {
                    return park(m, tid, Job::Done, ctx, env, out, StepOutcome::Failed(RunError::ConstructionViolation), Ghost(old(m).tasks@));
                }
                match recv_from(&mut m.chans, &mut m.got, c) {
                    RecvOutcome::Got(v) => match v {
                        Value::Fix(w) => {
                            let ghost s1 = m.chans@;
                            let c2 = alloc_chan(&mut m.chans, &mut m.got);
                            proof { lemma_store_evolves_trans(old(m).chans@, s1, m.chans@); }
                            let ghost s2 = m.chans@;
                            let ok = send_to(&mut m.chans, c2, *w);
                            proof { lemma_store_evolves_trans(old(m).chans@, s2, m.chans@); }
                            if !ok {
                                proof {
                                    assert(chan_open(s2[c2 as int]));
                                }
                                return park(m, tid, Job::Done, ctx, env, out, StepOutcome::Failed(RunError::ConstructionViolation), Ghost(old(m).tasks@));
                            }
                            match extract_source(&mut ctx, i) {
                                Some(_) => {},
                                None => {
                                    return park(m, tid, Job::Done, ctx, env, out, StepOutcome::Failed(RunError::ConstructionViolation), Ghost(old(m).tasks@));
                                },
                            }
                            if !insert_target(&mut ctx, i, c2) {
                                return park(m, tid, Job::Done, ctx, env, out, StepOutcome::Failed(RunError::ConstructionViolation), Ghost(old(m).tasks@));
                            }
                            proof {
                                lemma_split_merge_inverse(old(m).tasks@[tid as int].ctx@, i as int, c2);
                            }
                            return park(m, tid, Job::Run(*cont), ctx, env, out, StepOutcome::Progressed, Ghost(old(m).tasks@));
                        },
                        _ => return park(m, tid, Job::Done, ctx, env, out, StepOutcome::Failed(RunError::ProtocolViolation), Ghost(old(m).tasks@)),
                    },
                    RecvOutcome::Pending => return park(m, tid, Job::Run(PartialSession::Unfix(i, cont)), ctx, env, out, StepOutcome::Blocked, Ghost(old(m).tasks@)),
                    RecvOutcome::Gone => return park(m, tid, Job::Done, ctx, env, out, StepOutcome::Failed(RunError::DeliveryFailure), Ghost(old(m).tasks@)),
                }
            },
            PartialSession::Link(q, cont) => {
                let cq = alloc_chan(&mut m.chans, &mut m.got);
                m.tasks.push(Task { job: Job::Run(*q), ctx: Vec::new(), env: Vec::new(), out: cq });
                let ghost spawned = m.tasks@[m.tasks@.len() - 1];
                append_context(&mut ctx, cq);
                return park_spawn(m, tid, Job::Run(*cont), ctx, env, out, StepOutcome::Progressed, Ghost(old(m).tasks@), Ghost(spawned));
            },
            PartialSession::Invalid => return park(m, tid, Job::Done, ctx, env, out, StepOutcome::Failed(RunError::ConstructionViolation), Ghost(old(m).tasks@)),
        },
    }
}

fn machine_done_check(m: &Machine) -> (b: bool)
    ensures
        b == machine_done(*m),
{
    let mut i: usize = 0;
    while i < m.tasks.len()
        invariant
            i <= m.tasks@.len(),
            forall|j: int| 0 <= j < i ==> m.tasks@[j].job is Done,
        decreases m.tasks@.len() - i,
    {
        match &m.tasks[i].job {
            Job::Done => {},
            _ => {
                return false;
            },
        }
        i = i + 1;
    }
    true
}

/// Adds a fresh channel to the machine's store, returning its endpoint.
pub fn machine_alloc(m: &mut Machine) -> (c: usize)
    requires
        m_wf(*old(m)),
    ensures
        m_wf(*final(m)),
        final(m).tasks@ == old(m).tasks@,
        final(m).chans@.len() == old(m).chans@.len() + 1,
        c == old(m).chans@.len(),
        forall|j: int| 0 <= j < old(m).chans@.len() ==> final(m).chans@[j] == old(m).chans@[j],
        forall|j: int| 0 <= j < old(m).got@.len() ==> final(m).got@[j] == old(m).got@[j],
        chan_open(final(m).chans@[c as int]),
        chan_msgs(final(m).chans@[c as int]) == Seq::<Value>::empty(),
        final(m).got@[c as int] == false,
        store_evolves(old(m).chans@, final(m).chans@),
{
    alloc_chan(&mut m.chans, &mut m.got)
}

/// Adds a channel whose sending side is already gone: a receive on it
/// reports a delivery failure, never a value.  This models a peer that
/// was dropped before completing its side.
pub fn machine_alloc_dropped(m: &mut Machine) -> (c: usize)
    requires
        m_wf(*old(m)),
    ensures
        m_wf(*final(m)),
        final(m).tasks@ == old(m).tasks@,
        final(m).chans@.len() == old(m).chans@.len() + 1,
        c == old(m).chans@.len(),
        forall|j: int| 0 <= j < old(m).chans@.len() ==> final(m).chans@[j] == old(m).chans@[j],
        forall|j: int| 0 <= j < old(m).got@.len() ==> final(m).got@[j] == old(m).got@[j],
        !chan_open(final(m).chans@[c as int]),
        chan_msgs(final(m).chans@[c as int]) == Seq::<Value>::empty(),
        final(m).got@[c as int] == false,
        store_evolves(old(m).chans@, final(m).chans@),
{
    alloc_dropped_chan(&mut m.chans, &mut m.got)
}

/// Spawns a task running a session builder over the given context
/// slots, driving the given output endpoint.
pub fn machine_spawn(m: &mut Machine, prog: PartialSession, slots: Vec<Slot>, out: usize)
    requires
        m_wf(*old(m)),
    ensures
        m_wf(*final(m)),
        final(m).chans@ == old(m).chans@,
        final(m).got@ == old(m).got@,
        final(m).tasks@.len() == old(m).tasks@.len() + 1,
        forall|j: int| 0 <= j < old(m).tasks@.len() ==> final(m).tasks@[j] == old(m).tasks@[j],
        final(m).tasks@[old(m).tasks@.len() as int].job == Job::Run(prog),
        final(m).tasks@[old(m).tasks@.len() as int].ctx@ == slots@,
        final(m).tasks@[old(m).tasks@.len() as int].env@ == Seq::<Option<Value>>::empty(),
        final(m).tasks@[old(m).tasks@.len() as int].out == out,
{
    m.tasks.push(Task { job: Job::Run(prog), ctx: slots, env: Vec::new(), out });
}

/// Receives directly from one channel of the machine's store: used to
/// drain the root endpoint once a run has completed, and by callers
/// probing delivery.
pub fn machine_recv(m: &mut Machine, c: usize) -> (r: RecvOutcome)
    requires
        m_wf(*old(m)),
        c < old(m).chans@.len(),
    ensures
        m_wf(*final(m)),
        final(m).tasks@ == old(m).tasks@,
        final(m).chans@.len() == old(m).chans@.len(),
        forall|j: int| 0 <= j < old(m).chans@.len() && j != c ==> final(m).chans@[j] == old(
            m,
        ).chans@[j] && final(m).got@[j] == old(m).got@[j],
        store_evolves(old(m).chans@, final(m).chans@),
        match r {
            RecvOutcome::Got(v) => {
                &&& chan_msgs(old(m).chans@[c as int]) == seq![v]
                &&& chan_spent(final(m).chans@[c as int])
                &&& final(m).got@[c as int] == true
            },
            RecvOutcome::Pending => {
                &&& chan_fresh(old(m).chans@[c as int])
                &&& final(m).chans@[c as int] == old(m).chans@[c as int]
                &&& final(m).got@[c as int] == old(m).got@[c as int]
            },
            RecvOutcome::Gone => {
                &&& chan_spent(old(m).chans@[c as int])
                &&& final(m).chans@[c as int] == old(m).chans@[c as int]
                &&& final(m).got@[c as int] == old(m).got@[c as int]
            },
        },
{
    recv_from(&mut m.chans, &mut m.got, c)
}

/// Whether every channel created during the run has delivered its one
/// value: the audit of the linearity contract, true after a session
/// completed without leaking an endpoint.
pub fn machine_all_consumed(m: &Machine) -> (b: bool)
    ensures
        b == (forall|j: int| 0 <= j < m.got@.len() ==> m.got@[j]),
{
    let mut i: usize = 0;
    while i < m.got.len()
        invariant
            i <= m.got@.len(),
            forall|j: int| 0 <= j < i ==> m.got@[j],
        decreases m.got@.len() - i,
    {
        if !m.got[i] {
            return false;
        }
        i = i + 1;
    }
    true
}

/// Sweeps the machine's tasks until all have finished, none can make
/// progress, or the fuel runs out.  A sweep without progress while tasks
/// still wait is a delivery failure: some peer is gone and the session
/// fails as a unit.  On success every task has finished.
pub fn run_machine(m: &mut Machine, fuel: u64) -> (r: Result<(), RunError>)
    requires
        m_wf(*old(m)),
    ensures
        m_wf(*final(m)),
        store_evolves(old(m).chans@, final(m).chans@),
        r is Ok ==> machine_done(*final(m)),
        fuel == 0 ==> r == Err::<(), RunError>(RunError::OutOfFuel),
{
    if fuel == 0 {
        return Err(RunError::OutOfFuel);
    }
    let mut rounds: u64 = fuel;
    loop
        invariant
            fuel > 0,
            m_wf(*m),
            store_evolves(old(m).chans@, m.chans@),
        decreases rounds,
    {
        if rounds == 0 {
            return Err(RunError::OutOfFuel);
        }
        rounds = rounds - 1;
        let n = m.tasks.len();
        let mut tid: usize = 0;
        let mut progressed = false;
        while tid < n
            invariant
                fuel > 0,
                n <= m.tasks@.len(),
                tid <= n,
                m_wf(*m),
                store_evolves(old(m).chans@, m.chans@),
            decreases n - tid,
        {
            let ghost s0 = m.chans@;
            let o = step_task(m, tid);
            proof {
                lemma_store_evolves_trans(old(m).chans@, s0, m.chans@);
            }
            match o {
                StepOutcome::Progressed => {
                    progressed = true;
                },
                StepOutcome::Blocked => {},
                StepOutcome::Idle => {},
                StepOutcome::Failed(e) => {
                    return Err(e);
                },
            }
            tid = tid + 1;
        }
        if !progressed {
            if machine_done_check(m) {
                return Ok(());
            } else {
                return Err(RunError::DeliveryFailure);
            }
        }
    }
}

/// Runs a composed session on the given machine: spawns the root task
/// over an empty context, sweeps to completion, and drains the root
/// endpoint.  The session either completes with exactly one final output
/// value or fails as a unit; on success every task has finished.
pub fn run_session_in(m: &mut Machine, s: PartialSession, fuel: u64) -> (r: Result<
    Value,
    RunError,
>)
    requires
        m_wf(*old(m)),
    ensures
        m_wf(*final(m)),
        store_evolves(old(m).chans@, final(m).chans@),
        r is Ok ==> machine_done(*final(m)),
        r is Ok ==> old(m).chans@.len() < final(m).got@.len() && final(m).got@[old(
            m,
        ).chans@.len() as int],
        fuel == 0 ==> r == Err::<Value, RunError>(RunError::OutOfFuel),
{
    let root = machine_alloc(m);
    machine_spawn(m, s, Vec::new(), root);
    let ghost s1 = m.chans@;
    let res = run_machine(m, fuel);
    proof {
        lemma_store_evolves_trans(old(m).chans@, s1, m.chans@);
    }
    match res {
        Err(e) => Err(e),
        Ok(()) => {
            let ghost s2 = m.chans@;
            let r1 = machine_recv(m, root);
            proof {
                lemma_store_evolves_trans(old(m).chans@, s2, m.chans@);
            }
            match r1 {
                RecvOutcome::Got(v) => match v {
                    Value::Unit => Ok(Value::Unit),
                    Value::Pair(pv, rest) => match *rest {
                        Value::Chan(c2) => {
                            if c2 >= m.chans.len() {
                                return Err(RunError::ProtocolViolation);
                            }
                            let ghost s3 = m.chans@;
                            let r2 = machine_recv(m, c2);
                            proof {
                                lemma_store_evolves_trans(old(m).chans@, s3, m.chans@);
                            }
                            match r2 {
                                RecvOutcome::Got(fin) => match fin {
                                    Value::Unit => Ok(*pv),
                                    _ => Err(RunError::ProtocolViolation),
                                },
                                _ => Err(RunError::DeliveryFailure),
                            }
                        },
                        _ => Err(RunError::ProtocolViolation),
                    },
                    _ => Err(RunError::ProtocolViolation),
                },
                _ => Err(RunError::DeliveryFailure),
            }
        },
    }
}

/// Constructs the root machine and context, runs the session, and
/// returns its one final output value; there is no partial-result mode.
pub fn run_session(s: PartialSession, fuel: u64) -> (r: Result<Value, RunError>)
    ensures
        fuel == 0 ==> r == Err::<Value, RunError>(RunError::OutOfFuel),
{
    let mut m = machine_new();
    run_session_in(&mut m, s, fuel)
}

} // verus!
