//! One worker of the pool, as a machine that is told what happened and says
//! what to do next. Whoever drives it dequeues, sends the request and prints.

use vstd::prelude::*;
use crate::report::{
    classify, outcome_of, Elapsed, Reply, ReplyView, Report, ReportView, TIMEOUT_SECS,
};

verus! {

/// Where a worker stands between two events.
#[derive(Clone, Debug, PartialEq, Eq)]
pub enum WorkerState {
    /// It holds no URL and asks the queue for one.
    Idle,
    /// Its request for `url` is under way.
    Busy { url: String },
    /// It saw the queue closed and empty, and has stopped.
    Done,
}

/// The mathematical value of a `WorkerState`.
pub enum WorkerStateView {
    Idle,
    Busy { url: Seq<char> },
    Done,
}

impl View for WorkerState {
    type V = WorkerStateView;

    open spec fn view(&self) -> WorkerStateView {
        match *self {
            WorkerState::Idle => WorkerStateView::Idle,
            WorkerState::Busy { url } => WorkerStateView::Busy { url: url@ },
            WorkerState::Done => WorkerStateView::Done,
        }
    }
}

/// A worker: its index in the pool, which only labels its reports, and its
/// state.
#[derive(Clone, Debug, PartialEq, Eq)]
pub struct Worker {
    pub id: usize,
    pub state: WorkerState,
}

/// The mathematical value of a `Worker`.
pub struct WorkerView {
    pub id: usize,
    pub state: WorkerStateView,
}

impl View for Worker {
    type V = WorkerView;

    open spec fn view(&self) -> WorkerView {
        WorkerView { id: self.id, state: self.state@ }
    }
}

/// What a worker is told.
#[derive(Clone, Debug, PartialEq, Eq)]
pub enum Event {
    /// The queue handed over `url`.
    Dequeued { url: String },
    /// The queue is closed and holds nothing more.
    QueueClosed,
    /// The request ended, `elapsed` after it was sent.
    Completed { reply: Reply, elapsed: Elapsed },
}

/// The mathematical value of an `Event`.
pub enum EventView {
    Dequeued { url: Seq<char> },
    QueueClosed,
    Completed { reply: ReplyView, elapsed: Elapsed },
}

impl View for Event {
    type V = EventView;

    open spec fn view(&self) -> EventView {
        match *self {
            Event::Dequeued { url } => EventView::Dequeued { url: url@ },
            Event::QueueClosed => EventView::QueueClosed,
            Event::Completed { reply, elapsed } => EventView::Completed { reply: reply@, elapsed },
        }
    }
}

/// What a worker asks for.
#[derive(Clone, Debug, PartialEq, Eq)]
pub enum Action {
    /// Send a GET to `url` and give up after `timeout_secs` seconds.
    Request { url: String, timeout_secs: u64 },
    /// Print `report`, then ask the queue again.
    Emit { report: Report },
    /// Nothing more: the worker has ended.
    Stop,
}

/// The mathematical value of an `Action`.
pub enum ActionView {
    Request { url: Seq<char>, timeout_secs: u64 },
    Emit { report: ReportView },
    Stop,
}

impl View for Action {
    type V = ActionView;

    open spec fn view(&self) -> ActionView {
        match *self {
            Action::Request { url, timeout_secs } => ActionView::Request {
                url: url@,
                timeout_secs,
            },
            Action::Emit { report } => ActionView::Emit { report: report@ },
            Action::Stop => ActionView::Stop,
        }
    }
}

/// The worker's rule: the state that follows `event` and what is asked for,
/// or `None` where `event` cannot come in the state of `w`.
///
/// An idle worker takes the URL it is handed and asks for the request; told
/// that the queue is closed, it stops. A busy worker turns the end of its
/// request into one report, for the URL it was handed, and is idle again.
pub open spec fn worker_next(w: WorkerView, event: EventView) -> Option<(WorkerView, ActionView)> {
    match (w.state, event) {
        (WorkerStateView::Idle, EventView::Dequeued { url }) => Some(
            (
                WorkerView { id: w.id, state: WorkerStateView::Busy { url } },
                ActionView::Request { url, timeout_secs: TIMEOUT_SECS },
            ),
        ),
        (WorkerStateView::Idle, EventView::QueueClosed) => Some(
            (WorkerView { id: w.id, state: WorkerStateView::Done }, ActionView::Stop),
        ),
        (WorkerStateView::Busy { url }, EventView::Completed { reply, elapsed }) => Some(
            (
                WorkerView { id: w.id, state: WorkerStateView::Idle },
                ActionView::Emit {
                    report: ReportView {
                        worker: w.id,
                        url,
                        outcome: outcome_of(reply, elapsed),
                        elapsed,
                    },
                },
            ),
        ),
        _ => None,
    }
}

impl Worker {
    /// An idle worker with the index `id`.
    pub fn new(id: usize) -> (w: Worker)
        ensures
            w@ == (WorkerView { id, state: WorkerStateView::Idle }),
    {
        Worker { id, state: WorkerState::Idle }
    }

    /// Whether the worker has stopped.
    pub fn is_done(&self) -> (done: bool)
        ensures
            done == (self@.state is Done),
    {
        match self.state {
            WorkerState::Done => true,
            _ => false,
        }
    }

    /// Takes one event. Where the event fits the state, the worker moves on
    /// and says what to do; where it does not, the worker stays as it is and
    /// asks for nothing.
    pub fn step(self, event: Event) -> (out: (Worker, Option<Action>))
        ensures
            match worker_next(self@, event@) {
                Some((next, action)) => out.0@ == next && out.1 is Some && out.1->0@ == action,
                None => out.0@ == self@ && out.1 is None,
            },
    {
        let Worker { id, state } = self;
        match (state, event) {
            (WorkerState::Idle, Event::Dequeued { url }) => {
                let kept = url.clone();
                (
                    Worker { id, state: WorkerState::Busy { url: kept } },
                    Some(Action::Request { url, timeout_secs: TIMEOUT_SECS }),
                )
            },
            (WorkerState::Idle, Event::QueueClosed) => (
                Worker { id, state: WorkerState::Done },
                Some(Action::Stop),
            ),
            (WorkerState::Busy { url }, Event::Completed { reply, elapsed }) => {
                let outcome = classify(reply, elapsed);
                (
                    Worker { id, state: WorkerState::Idle },
                    Some(Action::Emit { report: Report { worker: id, url, outcome, elapsed } }),
                )
            },
            (state, _) => (Worker { id, state }, None),
        }
    }
}

} // verus!
