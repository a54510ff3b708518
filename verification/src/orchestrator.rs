//! The orchestrator: the order in which a run reads its input, starts the
//! pool, feeds the queue, closes it and waits for the workers. It is told what
//! happened and says what to do next; whoever drives it does the work.

use vstd::prelude::*;
use crate::config::{Config, ConfigView};
use crate::source::{tokens, url_tokens};

verus! {

/// Where a run stands between two events.
#[derive(Clone, Copy, Debug, PartialEq, Eq)]
pub enum Stage {
    /// Nothing has happened yet.
    Initializing,
    /// The input is being read.
    Reading,
    /// The workers are being started on the queue's consumer end.
    Starting,
    /// Token `next` is being pushed; those before it are on the queue.
    Pushing { next: usize },
    /// Every token is pushed and the producer end is being released.
    Closing,
    /// The queue is closed; worker `next` is being waited for, those before
    /// it have ended.
    Joining { next: usize },
    /// The run is over.
    Done,
}

/// The phases of a run.
#[derive(Clone, Copy, Debug, PartialEq, Eq)]
pub enum Phase {
    Initializing,
    Reading,
    /// The source pushes while the pool works.
    Dispatching,
    /// The source is through and the pool works off what is left.
    Draining,
    Done,
}

impl Stage {
    /// The phase that a stage belongs to.
    pub open spec fn phase(self) -> Phase {
        match self {
            Stage::Initializing => Phase::Initializing,
            Stage::Reading => Phase::Reading,
            Stage::Starting => Phase::Dispatching,
            Stage::Pushing { .. } => Phase::Dispatching,
            Stage::Closing => Phase::Draining,
            Stage::Joining { .. } => Phase::Draining,
            Stage::Done => Phase::Done,
        }
    }
}

/// Why a run was given up.
#[derive(Clone, Copy, Debug, PartialEq, Eq)]
pub enum RunError {
    /// The input could not be read.
    InputUnreadable,
    /// A push found the queue's consumer end gone.
    QueueSevered,
    /// A worker ended abnormally.
    WorkerFailed,
}

/// What the orchestrator is told.
#[derive(Clone, Debug, PartialEq, Eq)]
pub enum RunEvent {
    /// The run may begin.
    Start,
    /// The whole input, as text.
    InputRead { text: String },
    /// The input could not be read.
    InputUnreadable,
    /// The workers run.
    WorkersStarted,
    /// The token is on the queue.
    Pushed,
    /// The token was refused: nobody can receive it any more.
    PushFailed,
    /// The producer end is released.
    QueueClosed,
    /// The worker waited for has ended normally.
    WorkerFinished,
    /// The worker waited for has ended abnormally.
    WorkerFailed,
}

/// The mathematical value of a `RunEvent`.
pub enum RunEventView {
    Start,
    InputRead { text: Seq<char> },
    InputUnreadable,
    WorkersStarted,
    Pushed,
    PushFailed,
    QueueClosed,
    WorkerFinished,
    WorkerFailed,
}

impl View for RunEvent {
    type V = RunEventView;

    open spec fn view(&self) -> RunEventView {
        match *self {
            RunEvent::Start => RunEventView::Start,
            RunEvent::InputRead { text } => RunEventView::InputRead { text: text@ },
            RunEvent::InputUnreadable => RunEventView::InputUnreadable,
            RunEvent::WorkersStarted => RunEventView::WorkersStarted,
            RunEvent::Pushed => RunEventView::Pushed,
            RunEvent::PushFailed => RunEventView::PushFailed,
            RunEvent::QueueClosed => RunEventView::QueueClosed,
            RunEvent::WorkerFinished => RunEventView::WorkerFinished,
            RunEvent::WorkerFailed => RunEventView::WorkerFailed,
        }
    }
}

/// What the orchestrator asks for.
#[derive(Clone, Debug, PartialEq, Eq)]
pub enum RunAction {
    /// Read the file at `path` into memory.
    ReadInput { path: String },
    /// Make the queue and start `count` workers, indexed from 0, on its
    /// consumer end.
    StartWorkers { count: usize },
    /// Push `url` onto the queue.
    Push { url: String },
    /// Release the producer end, so that the queue closes.
    CloseQueue,
    /// Wait until worker `index` has ended.
    AwaitWorker { index: usize },
    /// Return: every report is out.
    Finish,
    /// Give the run up at once.
    Abort { error: RunError },
}

/// The mathematical value of a `RunAction`.
pub enum RunActionView {
    ReadInput { path: Seq<char> },
    StartWorkers { count: usize },
    Push { url: Seq<char> },
    CloseQueue,
    AwaitWorker { index: usize },
    Finish,
    Abort { error: RunError },
}

impl View for RunAction {
    type V = RunActionView;

    open spec fn view(&self) -> RunActionView {
        match *self {
            RunAction::ReadInput { path } => RunActionView::ReadInput { path: path@ },
            RunAction::StartWorkers { count } => RunActionView::StartWorkers { count },
            RunAction::Push { url } => RunActionView::Push { url: url@ },
            RunAction::CloseQueue => RunActionView::CloseQueue,
            RunAction::AwaitWorker { index } => RunActionView::AwaitWorker { index },
            RunAction::Finish => RunActionView::Finish,
            RunAction::Abort { error } => RunActionView::Abort { error },
        }
    }
}

/// A run: its configuration, the URL tokens of its input once that is read,
/// and its stage.
#[derive(Clone, Debug, PartialEq, Eq)]
pub struct Orchestrator {
    pub config: Config,
    pub tokens: Vec<String>,
    pub stage: Stage,
}

/// The mathematical value of an `Orchestrator`.
pub struct RunView {
    pub config: ConfigView,
    pub tokens: Seq<Seq<char>>,
    pub stage: Stage,
}

impl View for Orchestrator {
    type V = RunView;

    open spec fn view(&self) -> RunView {
        RunView { config: self.config@, tokens: self.tokens.deep_view(), stage: self.stage }
    }
}

impl RunView {
    /// This run at another stage.
    pub open spec fn at(self, stage: Stage) -> RunView {
        RunView { config: self.config, tokens: self.tokens, stage }
    }

    /// What follows the push of token `next`: the push of the token after
    /// it, or the closing of the queue where there is none.
    pub open spec fn push_from(self, next: int) -> (RunView, RunActionView) {
        if 0 <= next < self.tokens.len() && next <= usize::MAX {
            (
                self.at(Stage::Pushing { next: next as usize }),
                RunActionView::Push { url: self.tokens[next] },
            )
        } else {
            (self.at(Stage::Closing), RunActionView::CloseQueue)
        }
    }

    /// What follows the end of the workers before `next`: the wait for
    /// worker `next`, or the end of the run where there is none.
    pub open spec fn join_from(self, next: int) -> (RunView, RunActionView) {
        if 0 <= next < self.config.workers {
            (
                self.at(Stage::Joining { next: next as usize }),
                RunActionView::AwaitWorker { index: next as usize },
            )
        } else {
            (self.at(Stage::Done), RunActionView::Finish)
        }
    }

    /// The run given up with `error`.
    pub open spec fn abort(self, error: RunError) -> (RunView, RunActionView) {
        (self.at(Stage::Done), RunActionView::Abort { error })
    }
}

/// The run before anything has happened.
pub open spec fn run_init(config: ConfigView) -> RunView {
    RunView { config, tokens: Seq::empty(), stage: Stage::Initializing }
}

/// The orchestrator's rule: the state that follows `event` and what is asked
/// for, or `None` where `event` cannot come at the stage of `run`.
///
/// The input is read, then the workers are started, then the tokens are
/// pushed one by one in their order, then the queue is closed, then the
/// workers are waited for in the order of their indices, then the run ends.
/// Unreadable input, a refused push and a worker's abnormal end give the run
/// up at once.
pub open spec fn run_next(run: RunView, event: RunEventView) -> Option<(RunView, RunActionView)> {
    match (run.stage, event) {
        (Stage::Initializing, RunEventView::Start) => Some(
            (run.at(Stage::Reading), RunActionView::ReadInput { path: run.config.path }),
        ),
        (Stage::Reading, RunEventView::InputRead { text }) => Some(
            (
                RunView { config: run.config, tokens: tokens(text), stage: Stage::Starting },
                RunActionView::StartWorkers { count: run.config.workers },
            ),
        ),
        (Stage::Reading, RunEventView::InputUnreadable) => Some(
            run.abort(RunError::InputUnreadable),
        ),
        (Stage::Starting, RunEventView::WorkersStarted) => Some(run.push_from(0)),
        (Stage::Pushing { next }, RunEventView::Pushed) => Some(run.push_from(next + 1)),
        (Stage::Pushing { .. }, RunEventView::PushFailed) => Some(
            run.abort(RunError::QueueSevered),
        ),
        (Stage::Closing, RunEventView::QueueClosed) => Some(run.join_from(0)),
        (Stage::Joining { next }, RunEventView::WorkerFinished) => Some(run.join_from(next + 1)),
        (Stage::Joining { .. }, RunEventView::WorkerFailed) => Some(
            run.abort(RunError::WorkerFailed),
        ),
        _ => None,
    }
}

impl RunError {
    /// The text shown to the user for this error.
    pub fn message(&self) -> (text: String)
        ensures
            text@ == match *self {
                RunError::InputUnreadable => "Error reading file"@,
                RunError::QueueSevered => "the queue was closed while URLs were still pushed"@,
                RunError::WorkerFailed => "a worker ended abnormally"@,
            },
    {
        match self {
            RunError::InputUnreadable => String::from_str("Error reading file"),
            RunError::QueueSevered => String::from_str(
                "the queue was closed while URLs were still pushed",
            ),
            RunError::WorkerFailed => String::from_str("a worker ended abnormally"),
        }
    }
}

impl Orchestrator {
    /// A run with the configuration `config`, before anything has happened.
    pub fn new(config: Config) -> (run: Orchestrator)
        ensures
            run@ == run_init(config@),
    {
        let run = Orchestrator { config, tokens: Vec::new(), stage: Stage::Initializing };
        assert(run.tokens.deep_view() =~= Seq::<Seq<char>>::empty());
        run
    }

    /// The phase that the run is in.
    pub fn phase(&self) -> (phase: Phase)
        ensures
            phase == self@.stage.phase(),
    {
        match self.stage {
            Stage::Initializing => Phase::Initializing,
            Stage::Reading => Phase::Reading,
            Stage::Starting => Phase::Dispatching,
            Stage::Pushing { .. } => Phase::Dispatching,
            Stage::Closing => Phase::Draining,
            Stage::Joining { .. } => Phase::Draining,
            Stage::Done => Phase::Done,
        }
    }

    fn push_from(self, next: usize) -> (out: (Orchestrator, Option<RunAction>))
        ensures
            out.0@ == self@.push_from(next as int).0,
            out.1 is Some,
            out.1->0@ == self@.push_from(next as int).1,
    {
        let Orchestrator { config, tokens, stage: _ } = self;
        if next < tokens.len() {
            let url = tokens[next].clone();
            (Orchestrator { config, tokens, stage: Stage::Pushing { next } }, Some(RunAction::Push { url }))
        } else {
            (Orchestrator { config, tokens, stage: Stage::Closing }, Some(RunAction::CloseQueue))
        }
    }

    fn join_from(self, next: usize) -> (out: (Orchestrator, Option<RunAction>))
        ensures
            out.0@ == self@.join_from(next as int).0,
            out.1 is Some,
            out.1->0@ == self@.join_from(next as int).1,
    {
        let Orchestrator { config, tokens, stage: _ } = self;
        if next < config.workers {
            (
                Orchestrator { config, tokens, stage: Stage::Joining { next } },
                Some(RunAction::AwaitWorker { index: next }),
            )
        } else {
            (Orchestrator { config, tokens, stage: Stage::Done }, Some(RunAction::Finish))
        }
    }

    fn abort(self, error: RunError) -> (out: (Orchestrator, Option<RunAction>))
        ensures
            out.0@ == self@.abort(error).0,
            out.1 is Some,
            out.1->0@ == self@.abort(error).1,
    {
        let Orchestrator { config, tokens, stage: _ } = self;
        (Orchestrator { config, tokens, stage: Stage::Done }, Some(RunAction::Abort { error }))
    }

    /// Takes one event. Where the event fits the stage, the run moves on and
    /// says what to do; where it does not, the run stays as it is and asks
    /// for nothing.
    pub fn step(self, event: RunEvent) -> (out: (Orchestrator, Option<RunAction>))
        ensures
            match run_next(self@, event@) {
                Some((next, action)) => out.0@ == next && out.1 is Some && out.1->0@ == action,
                None => out.0@ == self@ && out.1 is None,
            },
    {
        match (self.stage, event) {
            (Stage::Initializing, RunEvent::Start) => {
                let Orchestrator { config, tokens, stage: _ } = self;
                let path = config.path.clone();
                (
                    Orchestrator { config, tokens, stage: Stage::Reading },
                    Some(RunAction::ReadInput { path }),
                )
            },
            (Stage::Reading, RunEvent::InputRead { text }) => {
                let Orchestrator { config, tokens: _, stage: _ } = self;
                let tokens = url_tokens(text.as_str());
                let count = config.workers;
                (
                    Orchestrator { config, tokens, stage: Stage::Starting },
                    Some(RunAction::StartWorkers { count }),
                )
            },
            (Stage::Reading, RunEvent::InputUnreadable) => self.abort(RunError::InputUnreadable),
            (Stage::Starting, RunEvent::WorkersStarted) => self.push_from(0),
            (Stage::Pushing { next }, RunEvent::Pushed) => {
                if next < usize::MAX {
                    self.push_from(next + 1)
                } else {
                    let Orchestrator { config, tokens, stage: _ } = self;
                    (
                        Orchestrator { config, tokens, stage: Stage::Closing },
                        Some(RunAction::CloseQueue),
                    )
                }
            },
            (Stage::Pushing { .. }, RunEvent::PushFailed) => self.abort(RunError::QueueSevered),
            (Stage::Closing, RunEvent::QueueClosed) => self.join_from(0),
            (Stage::Joining { next }, RunEvent::WorkerFinished) => {
                if next < usize::MAX {
                    self.join_from(next + 1)
                } else {
                    let Orchestrator { config, tokens, stage: _ } = self;
                    (Orchestrator { config, tokens, stage: Stage::Done }, Some(RunAction::Finish))
                }
            },
            (Stage::Joining { .. }, RunEvent::WorkerFailed) => self.abort(RunError::WorkerFailed),
            (_, _) => (self, None),
        }
    }
}

} // verus!
