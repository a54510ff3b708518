//! The pipeline as a whole: one orchestrator, one queue and a pool of workers
//! that move in any order. Nothing here is executable. It states what every
//! sequence of moves comes to, over the rules that the orchestrator and the
//! workers carry out.

use vstd::prelude::*;
use vstd::multiset::Multiset;
use crate::config::ConfigView;
use crate::orchestrator::{run_init, run_next, RunActionView, RunEventView, RunView, Stage};
use crate::report::{Elapsed, ReplyView, ReportView};
use crate::source::{fields, tokens};
use crate::worker::{worker_next, ActionView, EventView, WorkerStateView, WorkerView};

verus! {

/// Everything that a run consists of at one moment.
pub struct System {
    /// The orchestrator.
    pub run: RunView,
    /// What the orchestrator asked for last; it is still to be answered.
    pub pending: Option<RunActionView>,
    /// The text that was read, once it was.
    pub input: Option<Seq<char>>,
    /// Every token pushed so far, in the order of the pushes.
    pub sent: Seq<Seq<char>>,
    /// The tokens waiting on the queue, the oldest first.
    pub queue: Seq<Seq<char>>,
    /// Whether the producer end is released.
    pub closed: bool,
    /// The workers, by index.
    pub workers: Seq<WorkerView>,
    /// The reports emitted so far, in the order in which they came out.
    pub reports: Seq<ReportView>,
}

/// One move of the pipeline.
pub enum Step {
    /// What the orchestrator asked for is done, and it is told `event`.
    Orchestrate { event: RunEventView },
    /// Worker `worker` receives the oldest token of the queue.
    Dequeue { worker: int },
    /// Worker `worker` finds the queue closed and empty.
    FindClosed { worker: int },
    /// The request of worker `worker` ends, and its report comes out.
    Complete { worker: int, reply: ReplyView, elapsed: Elapsed },
}

/// The pipeline before anything has happened.
pub open spec fn init(config: ConfigView) -> System {
    System {
        run: run_init(config),
        pending: None,
        input: None,
        sent: Seq::empty(),
        queue: Seq::empty(),
        closed: false,
        workers: Seq::empty(),
        reports: Seq::empty(),
    }
}

/// A pool of `count` idle workers, indexed from 0.
pub open spec fn idle_pool(count: usize) -> Seq<WorkerView> {
    Seq::new(count as nat, |i: int| WorkerView { id: i as usize, state: WorkerStateView::Idle })
}

/// Whether `event` can be what answers the orchestrator's last request. A
/// text is read only where memory holds its tokens, a push succeeds only on an
/// open queue, and a worker is found ended only once it has stopped; reading,
/// pushing and waiting may also fail.
pub open spec fn answers(s: System, event: RunEventView) -> bool {
    match (s.pending, event) {
        (None, RunEventView::Start) => true,
        (Some(RunActionView::ReadInput { .. }), RunEventView::InputRead { text }) => tokens(
            text,
        ).len() <= usize::MAX,
        (Some(RunActionView::ReadInput { .. }), RunEventView::InputUnreadable) => true,
        (Some(RunActionView::StartWorkers { .. }), RunEventView::WorkersStarted) => true,
        (Some(RunActionView::Push { .. }), RunEventView::Pushed) => !s.closed,
        (Some(RunActionView::Push { .. }), RunEventView::PushFailed) => true,
        (Some(RunActionView::CloseQueue), RunEventView::QueueClosed) => true,
        (Some(RunActionView::AwaitWorker { index }), RunEventView::WorkerFinished) => index
            < s.workers.len() && s.workers[index as int].state is Done,
        (Some(RunActionView::AwaitWorker { .. }), RunEventView::WorkerFailed) => true,
        _ => false,
    }
}

/// The pipeline once the orchestrator's last request is done with the result
/// `event`: what the request does to the queue and the pool.
pub open spec fn carried_out(s: System, event: RunEventView) -> System {
    match (s.pending, event) {
        (Some(RunActionView::ReadInput { .. }), RunEventView::InputRead { text }) => System {
            input: Some(text),
            ..s
        },
        (Some(RunActionView::StartWorkers { count }), RunEventView::WorkersStarted) => System {
            workers: idle_pool(count),
            ..s
        },
        (Some(RunActionView::Push { url }), RunEventView::Pushed) => System {
            sent: s.sent.push(url),
            queue: s.queue.push(url),
            ..s
        },
        (Some(RunActionView::CloseQueue), RunEventView::QueueClosed) => System {
            closed: true,
            ..s
        },
        _ => s,
    }
}

/// The pipeline after `step`, or `None` where `step` cannot be made in `s`.
pub open spec fn apply(s: System, step: Step) -> Option<System> {
    match step {
        Step::Orchestrate { event } => {
            if answers(s, event) {
                match run_next(s.run, event) {
                    Some((run, action)) => Some(
                        System { run, pending: Some(action), ..carried_out(s, event) },
                    ),
                    None => None,
                }
            } else {
                None
            }
        },
        Step::Dequeue { worker } => {
            if 0 <= worker < s.workers.len() && s.queue.len() > 0 {
                match worker_next(s.workers[worker], EventView::Dequeued { url: s.queue[0] }) {
                    Some((w, _)) => Some(
                        System {
                            workers: s.workers.update(worker, w),
                            queue: s.queue.drop_first(),
                            ..s
                        },
                    ),
                    None => None,
                }
            } else {
                None
            }
        },
        Step::FindClosed { worker } => {
            if 0 <= worker < s.workers.len() && s.closed && s.queue.len() == 0 {
                match worker_next(s.workers[worker], EventView::QueueClosed) {
                    Some((w, _)) => Some(System { workers: s.workers.update(worker, w), ..s }),
                    None => None,
                }
            } else {
                None
            }
        },
        Step::Complete { worker, reply, elapsed } => {
            if 0 <= worker < s.workers.len() {
                match worker_next(s.workers[worker], EventView::Completed { reply, elapsed }) {
                    Some((w, ActionView::Emit { report })) => Some(
                        System {
                            workers: s.workers.update(worker, w),
                            reports: s.reports.push(report),
                            ..s
                        },
                    ),
                    _ => None,
                }
            } else {
                None
            }
        },
    }
}

/// The pipeline after the moves `steps`, made from `s` in their order, or
/// `None` where one of them cannot be made.
pub open spec fn after(s: System, steps: Seq<Step>) -> Option<System>
    decreases steps.len(),
{
    if steps.len() == 0 {
        Some(s)
    } else {
        match after(s, steps.drop_last()) {
            Some(mid) => apply(mid, steps.last()),
            None => None,
        }
    }
}

/// The URL tokens that the reports were made for, in the order of the
/// reports.
pub open spec fn origins(reports: Seq<ReportView>) -> Seq<Seq<char>> {
    Seq::new(reports.len(), |i: int| reports[i].url)
}

/// The token that a worker holds: the one of its request, where it is busy.
pub open spec fn held(w: WorkerView) -> Multiset<Seq<char>> {
    match w.state {
        WorkerStateView::Busy { url } => Multiset::singleton(url),
        _ => Multiset::empty(),
    }
}

/// The tokens that the workers `ws` hold.
pub open spec fn in_flight(ws: Seq<WorkerView>) -> Multiset<Seq<char>>
    decreases ws.len(),
{
    if ws.len() == 0 {
        Multiset::empty()
    } else {
        in_flight(ws.drop_last()).add(held(ws.last()))
    }
}

/// Moves that a worker has before it when the queue is empty and closed.
pub open spec fn worker_left(w: WorkerView) -> nat {
    match w.state {
        WorkerStateView::Busy { .. } => 2,
        WorkerStateView::Idle => 1,
        WorkerStateView::Done => 0,
    }
}

/// Moves that the workers `ws` have before them when the queue is empty and
/// closed.
pub open spec fn pool_left(ws: Seq<WorkerView>) -> nat
    decreases ws.len(),
{
    if ws.len() == 0 {
        0
    } else {
        pool_left(ws.drop_last()) + worker_left(ws.last())
    }
}

/// An upper bound on the moves that a pipeline with a closed queue can still
/// make: three for each token that waits, those of the workers, and one for
/// each worker that the orchestrator has yet to find ended.
pub open spec fn moves_left(s: System) -> nat {
    let joins: nat = match s.run.stage {
        Stage::Joining { next } => if next < s.run.config.workers {
            (s.run.config.workers - next) as nat
        } else {
            0
        },
        _ => 0,
    };
    3 * s.queue.len() + pool_left(s.workers) + joins
}

/// Whether the text is read and the orchestrator holds its tokens.
pub open spec fn fed(s: System) -> bool {
    &&& s.input is Some
    &&& s.run.tokens == tokens(s.input->0)
    &&& s.run.tokens.len() <= usize::MAX
}

/// Whether nothing has touched the queue and the pool yet.
pub open spec fn untouched(s: System) -> bool {
    &&& s.sent.len() == 0
    &&& s.queue.len() == 0
    &&& !s.closed
    &&& s.workers.len() == 0
    &&& s.reports.len() == 0
}

/// Whether the pool is started and the queue still open.
pub open spec fn working(s: System) -> bool {
    &&& fed(s)
    &&& !s.closed
    &&& s.workers.len() == s.run.config.workers
}

/// Whether every token is pushed and the queue closed.
pub open spec fn draining(s: System) -> bool {
    &&& fed(s)
    &&& s.closed
    &&& s.workers.len() == s.run.config.workers
    &&& s.sent == s.run.tokens
}

/// What holds at each stage of the orchestrator.
pub open spec fn stage_inv(s: System) -> bool {
    match s.run.stage {
        Stage::Initializing => s.pending is None && s.input is None && untouched(s),
        Stage::Reading => {
            &&& s.pending == Some(RunActionView::ReadInput { path: s.run.config.path })
            &&& s.input is None
            &&& untouched(s)
        },
        Stage::Starting => {
            &&& s.pending == Some(RunActionView::StartWorkers { count: s.run.config.workers })
            &&& fed(s)
            &&& untouched(s)
        },
        Stage::Pushing { next } => {
            &&& next < s.run.tokens.len()
            &&& s.pending == Some(RunActionView::Push { url: s.run.tokens[next as int] })
            &&& working(s)
            &&& s.sent == s.run.tokens.take(next as int)
        },
        Stage::Closing => {
            &&& s.pending == Some(RunActionView::CloseQueue)
            &&& working(s)
            &&& s.sent == s.run.tokens
        },
        Stage::Joining { next } => {
            &&& next < s.run.config.workers
            &&& s.pending == Some(RunActionView::AwaitWorker { index: next })
            &&& draining(s)
            &&& forall|i: int| 0 <= i < next ==> (#[trigger] s.workers[i]).state is Done
        },
        Stage::Done => {
            &&& s.pending is Some
            &&& s.pending->0 is Abort || s.pending->0 is Finish
            &&& fed(s) || untouched(s)
            &&& s.pending->0 is Finish ==> {
                &&& draining(s)
                &&& forall|i: int|
                    0 <= i < s.workers.len() ==> (#[trigger] s.workers[i]).state is Done
            }
        },
    }
}

/// What holds of every pipeline that moves from `init` reach.
///
/// Worker `i` carries the index `i`. A worker has stopped only on a queue
/// that is closed and empty. A queue is closed only once every token is
/// pushed. Every report names a worker of the pool, and without a pool the
/// queue keeps what it was given. The tokens pushed are the first of the
/// input's tokens, in their order. And no token is lost or made: those pushed
/// are those that wait, those that workers hold and those reported, each as
/// often.
pub open spec fn inv(s: System) -> bool {
    &&& stage_inv(s)
    &&& forall|i: int| 0 <= i < s.workers.len() ==> (#[trigger] s.workers[i]).id == i
    &&& forall|i: int|
        0 <= i < s.workers.len() && (#[trigger] s.workers[i]).state is Done ==> s.closed
            && s.queue.len() == 0
    &&& s.closed ==> (s.run.stage is Joining || s.run.stage is Done) && fed(s) && s.sent
        == s.run.tokens
    &&& forall|j: int|
        0 <= j < s.reports.len() ==> (#[trigger] s.reports[j]).worker < s.workers.len()
    &&& s.workers.len() == 0 || s.workers.len() == s.run.config.workers
    &&& s.workers.len() == 0 ==> s.queue == s.sent && s.reports.len() == 0
    &&& s.sent.len() <= s.run.tokens.len()
    &&& s.sent == s.run.tokens.take(s.sent.len() as int)
    &&& s.sent.to_multiset() == s.queue.to_multiset().add(in_flight(s.workers)).add(
        origins(s.reports).to_multiset(),
    )
}

proof fn lemma_in_flight_update(ws: Seq<WorkerView>, i: int, w: WorkerView)
    requires
        0 <= i < ws.len(),
    ensures
        in_flight(ws.update(i, w)).add(held(ws[i])) == in_flight(ws).add(held(w)),
    decreases ws.len(),
{
    broadcast use vstd::multiset::group_multiset_axioms;

    let up = ws.update(i, w);
    assert(in_flight(up) == in_flight(up.drop_last()).add(held(up.last())));
    assert(in_flight(ws) == in_flight(ws.drop_last()).add(held(ws.last())));
    if i == ws.len() - 1 {
        assert(up.drop_last() == ws.drop_last());
    } else {
        assert(up.drop_last() == ws.drop_last().update(i, w));
        lemma_in_flight_update(ws.drop_last(), i, w);
    }
    assert forall|x: Seq<char>|
        in_flight(up).add(held(ws[i])).count(x) == in_flight(ws).add(held(w)).count(x) by {
        if i < ws.len() - 1 {
            let before = in_flight(up.drop_last()).add(held(ws[i]));
            let after = in_flight(ws.drop_last()).add(held(w));
            assert(before.count(x) == after.count(x));
        }
    }
    assert(in_flight(up).add(held(ws[i])) =~= in_flight(ws).add(held(w)));
}

proof fn lemma_pool_left_update(ws: Seq<WorkerView>, i: int, w: WorkerView)
    requires
        0 <= i < ws.len(),
    ensures
        pool_left(ws.update(i, w)) + worker_left(ws[i]) == pool_left(ws) + worker_left(w),
    decreases ws.len(),
{
    let up = ws.update(i, w);
    if i == ws.len() - 1 {
        assert(up.drop_last() == ws.drop_last());
    } else {
        assert(up.drop_last() == ws.drop_last().update(i, w));
        lemma_pool_left_update(ws.drop_last(), i, w);
    }
}

proof fn lemma_none_held(ws: Seq<WorkerView>)
    requires
        forall|i: int| 0 <= i < ws.len() ==> !((#[trigger] ws[i]).state is Busy),
    ensures
        in_flight(ws) == Multiset::<Seq<char>>::empty(),
    decreases ws.len(),
{
    broadcast use vstd::multiset::group_multiset_axioms;

    if ws.len() > 0 {
        lemma_none_held(ws.drop_last());
        assert(in_flight(ws) =~= Multiset::<Seq<char>>::empty());
    }
}

/// The invariant holds before anything has happened.
pub proof fn lemma_inv_init(config: ConfigView)
    ensures
        inv(init(config)),
{
    broadcast use vstd::multiset::group_multiset_axioms;

    let s = init(config);
    lemma_none_held(s.workers);
    s.sent.to_multiset_ensures();
    origins(s.reports).to_multiset_ensures();
    assert(origins(s.reports) == Seq::<Seq<char>>::empty());
    assert(s.sent == s.run.tokens.take(0));
    assert(s.sent.to_multiset() =~= s.queue.to_multiset().add(in_flight(s.workers)).add(
        origins(s.reports).to_multiset(),
    ));
}

proof fn lemma_inv_orchestrate(s: System, event: RunEventView)
    requires
        inv(s),
        apply(s, Step::Orchestrate { event }) is Some,
    ensures
        inv(apply(s, Step::Orchestrate { event })->0),
{
    broadcast use vstd::multiset::group_multiset_axioms;

    let t = apply(s, Step::Orchestrate { event })->0;
    match (s.run.stage, event) {
        (Stage::Reading, RunEventView::InputRead { text }) => {
            assert(t.sent == t.run.tokens.take(0));
        },
        (Stage::Starting, RunEventView::WorkersStarted) => {
            lemma_none_held(s.workers);
            lemma_none_held(t.workers);
            assert(s.sent == s.run.tokens.take(0));
            if s.run.tokens.len() == 0 {
                assert(s.sent == s.run.tokens);
            }
        },
        (Stage::Pushing { next }, RunEventView::Pushed) => {
            let url = s.run.tokens[next as int];
            vstd::seq_lib::to_multiset_build(s.sent, url);
            vstd::seq_lib::to_multiset_build(s.queue, url);
            assert(t.sent == s.run.tokens.take(next + 1));
            if next + 1 >= s.run.tokens.len() {
                assert(t.sent == s.run.tokens);
            }
            assert(t.sent.to_multiset() =~= t.queue.to_multiset().add(in_flight(t.workers)).add(
                origins(t.reports).to_multiset(),
            ));
        },
        _ => {},
    }
}

proof fn lemma_inv_worker(s: System, step: Step)
    requires
        inv(s),
        !(step is Orchestrate),
        apply(s, step) is Some,
    ensures
        inv(apply(s, step)->0),
{
    broadcast use vstd::multiset::group_multiset_axioms;

    let t = apply(s, step)->0;
    match step {
        Step::Orchestrate { .. } => {},
        Step::Dequeue { worker } => {
            let url = s.queue[0];
            lemma_in_flight_update(s.workers, worker, t.workers[worker]);
            assert(s.queue.remove(0) == s.queue.drop_first());
            vstd::seq_lib::to_multiset_remove(s.queue, 0);
            vstd::seq_lib::to_multiset_contains(s.queue, url);
            assert(s.queue.contains(url));
            assert(held(s.workers[worker]) =~= Multiset::empty());
            assert(s.queue.to_multiset() =~= t.queue.to_multiset().insert(url));
            assert(in_flight(t.workers).add(Multiset::empty()) =~= in_flight(t.workers));
            assert(t.sent.to_multiset() =~= t.queue.to_multiset().add(in_flight(t.workers)).add(
                origins(t.reports).to_multiset(),
            ));
        },
        Step::FindClosed { worker } => {
            lemma_in_flight_update(s.workers, worker, t.workers[worker]);
            assert(held(s.workers[worker]) =~= Multiset::empty());
            assert(held(t.workers[worker]) =~= Multiset::empty());
            assert(in_flight(t.workers).add(Multiset::empty()) =~= in_flight(t.workers));
            assert(in_flight(s.workers).add(Multiset::empty()) =~= in_flight(s.workers));
        },
        Step::Complete { worker, reply, elapsed } => {
            let url = s.workers[worker].state->url;
            lemma_in_flight_update(s.workers, worker, t.workers[worker]);
            assert(held(t.workers[worker]) =~= Multiset::empty());
            assert(in_flight(s.workers).add(Multiset::empty()) =~= in_flight(s.workers));
            assert(origins(t.reports) == origins(s.reports).push(url));
            vstd::seq_lib::to_multiset_build(origins(s.reports), url);
            assert(t.sent.to_multiset() =~= t.queue.to_multiset().add(in_flight(t.workers)).add(
                origins(t.reports).to_multiset(),
            ));
        },
    }
}

/// Every move keeps the invariant.
pub proof fn lemma_inv_step(s: System, step: Step)
    requires
        inv(s),
        apply(s, step) is Some,
    ensures
        inv(apply(s, step)->0),
{
    match step {
        Step::Orchestrate { event } => lemma_inv_orchestrate(s, event),
        _ => lemma_inv_worker(s, step),
    }
}

/// Moves from a pipeline that meets the invariant lead to one that meets it.
pub proof fn lemma_inv_run(s: System, steps: Seq<Step>)
    requires
        inv(s),
        after(s, steps) is Some,
    ensures
        inv(after(s, steps)->0),
    decreases steps.len(),
{
    if steps.len() > 0 {
        lemma_inv_run(s, steps.drop_last());
        lemma_inv_step(after(s, steps.drop_last())->0, steps.last());
    }
}

/// The invariant holds after any moves from the start.
pub proof fn lemma_inv_after(config: ConfigView, steps: Seq<Step>)
    requires
        after(init(config), steps) is Some,
    ensures
        inv(after(init(config), steps)->0),
{
    lemma_inv_init(config);
    lemma_inv_run(init(config), steps);
}

proof fn lemma_config_kept(config: ConfigView, steps: Seq<Step>)
    requires
        after(init(config), steps) is Some,
    ensures
        after(init(config), steps)->0.run.config == config,
    decreases steps.len(),
{
    if steps.len() > 0 {
        lemma_config_kept(config, steps.drop_last());
    }
}

proof fn lemma_move_brings_end_nearer(s: System, step: Step)
    requires
        inv(s),
        s.closed,
        apply(s, step) is Some,
    ensures
        apply(s, step)->0.closed,
        moves_left(apply(s, step)->0) < moves_left(s),
{
    let t = apply(s, step)->0;
    match step {
        Step::Orchestrate { .. } => {},
        Step::Dequeue { worker } => {
            lemma_pool_left_update(s.workers, worker, t.workers[worker]);
        },
        Step::FindClosed { worker } => {
            lemma_pool_left_update(s.workers, worker, t.workers[worker]);
        },
        Step::Complete { worker, .. } => {
            lemma_pool_left_update(s.workers, worker, t.workers[worker]);
        },
    }
}

proof fn lemma_some_move_is_open(s: System) -> (step: Step)
    requires
        inv(s),
        s.closed,
        !(s.run.stage is Done),
    ensures
        apply(s, step) is Some,
        apply(s, step)->0.run.stage is Done ==> apply(s, step)->0.pending == Some(
            RunActionView::Finish,
        ),
{
    let next = s.run.stage->Joining_next;
    let w = s.workers[next as int];
    match w.state {
        WorkerStateView::Done => Step::Orchestrate { event: RunEventView::WorkerFinished },
        WorkerStateView::Busy { .. } => Step::Complete {
            worker: next as int,
            reply: ReplyView::Failed,
            elapsed: Elapsed { secs: 0, nanos: 0 },
        },
        WorkerStateView::Idle => if s.queue.len() > 0 {
            Step::Dequeue { worker: next as int }
        } else {
            Step::FindClosed { worker: next as int }
        },
    }
}

/// With one worker or more, a run that ends normally has made exactly one
/// report for each comma-separated field of its input; the reports are for
/// the cleaned fields, each as often as it occurs among them; and each names a
/// worker of the pool. This holds in whatever order the orchestrator and the
/// workers moved.
pub proof fn law_every_field_reported_once(config: ConfigView, steps: Seq<Step>)
    requires
        config.workers >= 1,
        after(init(config), steps) is Some,
        after(init(config), steps)->0.pending == Some(RunActionView::Finish),
    ensures
        ({
            let s = after(init(config), steps)->0;
            &&& s.run.stage is Done
            &&& s.input is Some
            &&& s.reports.len() == fields(s.input->0).len()
            &&& origins(s.reports).to_multiset() == tokens(s.input->0).to_multiset()
            &&& forall|j: int|
                0 <= j < s.reports.len() ==> (#[trigger] s.reports[j]).worker < config.workers
        }),
{
    broadcast use vstd::multiset::group_multiset_axioms;

    let s = after(init(config), steps)->0;
    lemma_inv_after(config, steps);
    lemma_config_kept(config, steps);
    assert(s.workers[0].state is Done);
    lemma_none_held(s.workers);
    assert forall|x: Seq<char>| s.queue.to_multiset().count(x) == 0 by {
        vstd::seq_lib::to_multiset_contains(s.queue, x);
    }
    assert(s.queue.to_multiset() =~= Multiset::empty());
    assert(origins(s.reports).to_multiset() =~= s.sent.to_multiset());
    vstd::seq_lib::to_multiset_len(origins(s.reports));
    vstd::seq_lib::to_multiset_len(s.sent);
}

/// The orchestrator keeps its order, whatever the workers do meanwhile. The
/// queue is closed only when every token of the input is pushed; a worker
/// stops, and the orchestrator waits for one, only when the queue is closed;
/// and the run ends normally only when the whole pool has stopped.
pub proof fn law_orchestrator_keeps_order(config: ConfigView, steps: Seq<Step>)
    requires
        after(init(config), steps) is Some,
    ensures
        ({
            let s = after(init(config), steps)->0;
            &&& s.closed ==> s.input is Some && s.sent == tokens(s.input->0)
            &&& forall|i: int|
                0 <= i < s.workers.len() && (#[trigger] s.workers[i]).state is Done ==> s.closed
            &&& s.pending is Some && s.pending->0 is AwaitWorker ==> s.closed
            &&& s.pending == Some(RunActionView::Finish) ==> {
                &&& s.closed
                &&& s.workers.len() == config.workers
                &&& forall|i: int|
                    0 <= i < s.workers.len() ==> (#[trigger] s.workers[i]).state is Done
            }
        }),
{
    lemma_inv_after(config, steps);
    lemma_config_kept(config, steps);
}

/// Without workers nothing is reported, whatever moves are made: what was
/// pushed waits on the queue, in the order of the pushes.
pub proof fn law_no_worker_no_report(config: ConfigView, steps: Seq<Step>)
    requires
        config.workers == 0,
        after(init(config), steps) is Some,
    ensures
        ({
            let s = after(init(config), steps)->0;
            &&& s.reports.len() == 0
            &&& s.workers.len() == 0
            &&& s.queue == s.sent
        }),
{
    lemma_inv_after(config, steps);
    lemma_config_kept(config, steps);
}

/// At any moment of any run, each report is for a URL token of the input:
/// one of its fields, trimmed and freed of line feeds.
pub proof fn law_reports_are_for_tokens(config: ConfigView, steps: Seq<Step>)
    requires
        after(init(config), steps) is Some,
    ensures
        ({
            let s = after(init(config), steps)->0;
            forall|j: int|
                0 <= j < s.reports.len() ==> s.input is Some && tokens(s.input->0).contains(
                    (#[trigger] s.reports[j]).url,
                )
        }),
{
    broadcast use vstd::multiset::group_multiset_axioms;

    let s = after(init(config), steps)->0;
    lemma_inv_after(config, steps);
    assert forall|j: int| 0 <= j < s.reports.len() implies s.input is Some && tokens(
        s.input->0,
    ).contains((#[trigger] s.reports[j]).url) by {
        let url = s.reports[j].url;
        assert(origins(s.reports)[j] == url);
        vstd::seq_lib::to_multiset_contains(origins(s.reports), url);
        vstd::seq_lib::to_multiset_contains(s.sent, url);
        assert(s.sent.contains(url));
        let i = choose|i: int| 0 <= i < s.sent.len() && s.sent[i] == url;
        assert(s.run.tokens[i] == url);
    }
}

proof fn lemma_moves_are_counted(s: System, more: Seq<Step>)
    requires
        inv(s),
        s.closed,
        after(s, more) is Some,
    ensures
        after(s, more)->0.closed,
        more.len() + moves_left(after(s, more)->0) <= moves_left(s),
    decreases more.len(),
{
    if more.len() > 0 {
        let mid = after(s, more.drop_last())->0;
        lemma_moves_are_counted(s, more.drop_last());
        lemma_inv_run(s, more.drop_last());
        lemma_move_brings_end_nearer(mid, more.last());
    }
}

proof fn lemma_run_to_the_end(s: System, more: Seq<Step>) -> (all: Seq<Step>)
    requires
        inv(s),
        s.closed,
        after(s, more) is Some,
    ensures
        after(s, all) is Some,
        after(s, all)->0.run.stage is Done,
        after(s, more)->0.run.stage is Done ==> all == more,
        after(s, more)->0.run.stage is Done || after(s, all)->0.pending == Some(
            RunActionView::Finish,
        ),
    decreases moves_left(after(s, more)->0),
{
    let t = after(s, more)->0;
    lemma_inv_run(s, more);
    lemma_moves_are_counted(s, more);
    if t.run.stage is Done {
        more
    } else {
        let step = lemma_some_move_is_open(t);
        lemma_move_brings_end_nearer(t, step);
        assert(more.push(step).drop_last() == more);
        lemma_run_to_the_end(s, more.push(step))
    }
}

/// Once the queue is closed, the run can be brought to its end: from any
/// moment at which the queue is closed, the moves `rest` lead the
/// orchestrator to `Done`; and unless the run was over already, they end it
/// normally, with every worker stopped.
pub proof fn law_closed_queue_can_end(config: ConfigView, steps: Seq<Step>) -> (rest: Seq<Step>)
    requires
        after(init(config), steps) is Some,
        after(init(config), steps)->0.closed,
    ensures
        ({
            let s = after(init(config), steps)->0;
            let t = after(s, rest)->0;
            &&& after(s, rest) is Some
            &&& t.run.stage is Done
            &&& !(s.run.stage is Done) ==> {
                &&& t.pending == Some(RunActionView::Finish)
                &&& forall|i: int|
                    0 <= i < t.workers.len() ==> (#[trigger] t.workers[i]).state is Done
            }
        }),
{
    let s = after(init(config), steps)->0;
    lemma_inv_after(config, steps);
    let rest = lemma_run_to_the_end(s, Seq::empty());
    lemma_inv_run(s, rest);
    rest
}

/// Once the queue is closed, the run ends, in whatever order the rest moves.
/// However the pipeline goes on from a moment at which the queue is closed,
/// it makes no more moves than `moves_left` counted at that moment, so it
/// cannot go on for ever; and it cannot stand still before the orchestrator
/// is done, because some move can then be made. In particular an idle worker
/// does not wait on the empty queue: it can find it closed, and has stopped
/// once it has.
pub proof fn law_closed_queue_drains(config: ConfigView, steps: Seq<Step>, more: Seq<Step>)
    requires
        after(init(config), steps) is Some,
        after(init(config), steps)->0.closed,
        after(after(init(config), steps)->0, more) is Some,
    ensures
        ({
            let s = after(init(config), steps)->0;
            let t = after(s, more)->0;
            &&& t.closed
            &&& more.len() + moves_left(t) <= moves_left(s)
            &&& !(t.run.stage is Done) ==> exists|step: Step| (#[trigger] apply(t, step)) is Some
            &&& forall|i: int|
                0 <= i < t.workers.len() && t.queue.len() == 0 && (#[trigger] t.workers[i]).state
                    is Idle ==> apply(t, Step::FindClosed { worker: i }) is Some && apply(
                    t,
                    Step::FindClosed { worker: i },
                )->0.workers[i].state is Done
        }),
{
    let s = after(init(config), steps)->0;
    let t = after(s, more)->0;
    lemma_inv_after(config, steps);
    lemma_inv_run(s, more);
    lemma_moves_are_counted(s, more);
    if !(t.run.stage is Done) {
        let step = lemma_some_move_is_open(t);
        assert(apply(t, step) is Some);
    }
}

} // verus!
