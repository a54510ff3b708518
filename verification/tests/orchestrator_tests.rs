use rusting::config::Config;
use rusting::orchestrator::{Orchestrator, Phase, RunAction, RunError, RunEvent, Stage};

fn config(workers: usize) -> Config {
    Config { path: "urls.csv".to_string(), workers }
}

fn then(run: Orchestrator, event: RunEvent) -> (Orchestrator, RunAction) {
    let (run, action) = run.step(event);
    (run, action.expect("the event fits the stage"))
}

fn read(workers: usize, text: &str) -> (Orchestrator, RunAction) {
    let run = Orchestrator::new(config(workers));
    let (run, _) = then(run, RunEvent::Start);
    then(run, RunEvent::InputRead { text: text.to_string() })
}

#[test]
fn new_run_is_initializing() {
    let run = Orchestrator::new(config(2));
    assert_eq!(run.stage, Stage::Initializing);
    assert_eq!(run.phase(), Phase::Initializing);
    assert!(run.tokens.is_empty());
    assert_eq!(run.config, config(2));
}

#[test]
fn start_asks_for_the_input() {
    let (run, action) = then(Orchestrator::new(config(2)), RunEvent::Start);
    assert_eq!(action, RunAction::ReadInput { path: "urls.csv".to_string() });
    assert_eq!(run.stage, Stage::Reading);
    assert_eq!(run.phase(), Phase::Reading);
}

#[test]
fn input_is_split_and_workers_are_started_first() {
    let (run, action) = read(2, "http://a.test, http://b.test,http://c.test");
    assert_eq!(action, RunAction::StartWorkers { count: 2 });
    assert_eq!(run.stage, Stage::Starting);
    assert_eq!(run.phase(), Phase::Dispatching);
    assert_eq!(run.tokens, vec!["http://a.test", "http://b.test", "http://c.test"]);
}

#[test]
fn tokens_are_pushed_in_order_then_the_queue_is_closed() {
    let (run, _) = read(2, " b ,a\n, b");
    let (run, action) = then(run, RunEvent::WorkersStarted);
    assert_eq!(action, RunAction::Push { url: "b".to_string() });
    assert_eq!(run.stage, Stage::Pushing { next: 0 });
    assert_eq!(run.phase(), Phase::Dispatching);
    let (run, action) = then(run, RunEvent::Pushed);
    assert_eq!(action, RunAction::Push { url: "a".to_string() });
    assert_eq!(run.stage, Stage::Pushing { next: 1 });
    let (run, action) = then(run, RunEvent::Pushed);
    assert_eq!(action, RunAction::Push { url: "b".to_string() });
    assert_eq!(run.stage, Stage::Pushing { next: 2 });
    let (run, action) = then(run, RunEvent::Pushed);
    assert_eq!(action, RunAction::CloseQueue);
    assert_eq!(run.stage, Stage::Closing);
    assert_eq!(run.phase(), Phase::Draining);
}

#[test]
fn workers_are_awaited_in_order_then_the_run_finishes() {
    let (run, _) = read(3, "only");
    let (run, _) = then(run, RunEvent::WorkersStarted);
    let (run, _) = then(run, RunEvent::Pushed);
    let (run, action) = then(run, RunEvent::QueueClosed);
    assert_eq!(action, RunAction::AwaitWorker { index: 0 });
    assert_eq!(run.stage, Stage::Joining { next: 0 });
    assert_eq!(run.phase(), Phase::Draining);
    let (run, action) = then(run, RunEvent::WorkerFinished);
    assert_eq!(action, RunAction::AwaitWorker { index: 1 });
    let (run, action) = then(run, RunEvent::WorkerFinished);
    assert_eq!(action, RunAction::AwaitWorker { index: 2 });
    let (run, action) = then(run, RunEvent::WorkerFinished);
    assert_eq!(action, RunAction::Finish);
    assert_eq!(run.stage, Stage::Done);
    assert_eq!(run.phase(), Phase::Done);
}

#[test]
fn empty_input_pushes_one_empty_token() {
    let (run, _) = read(1, "");
    assert_eq!(run.tokens, vec![String::new()]);
    let (run, action) = then(run, RunEvent::WorkersStarted);
    assert_eq!(action, RunAction::Push { url: String::new() });
    let (_, action) = then(run, RunEvent::Pushed);
    assert_eq!(action, RunAction::CloseQueue);
}

#[test]
fn without_workers_the_run_finishes_after_closing() {
    let (run, action) = read(0, "a,b");
    assert_eq!(action, RunAction::StartWorkers { count: 0 });
    let (run, action) = then(run, RunEvent::WorkersStarted);
    assert_eq!(action, RunAction::Push { url: "a".to_string() });
    let (run, action) = then(run, RunEvent::Pushed);
    assert_eq!(action, RunAction::Push { url: "b".to_string() });
    let (run, action) = then(run, RunEvent::Pushed);
    assert_eq!(action, RunAction::CloseQueue);
    let (run, action) = then(run, RunEvent::QueueClosed);
    assert_eq!(action, RunAction::Finish);
    assert_eq!(run.stage, Stage::Done);
}

#[test]
fn unreadable_input_aborts_before_any_queue_activity() {
    let (run, _) = then(Orchestrator::new(config(2)), RunEvent::Start);
    let (run, action) = then(run, RunEvent::InputUnreadable);
    assert_eq!(action, RunAction::Abort { error: RunError::InputUnreadable });
    assert_eq!(run.stage, Stage::Done);
    assert!(run.tokens.is_empty());
}

#[test]
fn refused_push_aborts() {
    let (run, _) = read(2, "a,b");
    let (run, _) = then(run, RunEvent::WorkersStarted);
    let (run, _) = then(run, RunEvent::Pushed);
    let (run, action) = then(run, RunEvent::PushFailed);
    assert_eq!(action, RunAction::Abort { error: RunError::QueueSevered });
    assert_eq!(run.stage, Stage::Done);
}

#[test]
fn failed_worker_aborts() {
    let (run, _) = read(2, "a");
    let (run, _) = then(run, RunEvent::WorkersStarted);
    let (run, _) = then(run, RunEvent::Pushed);
    let (run, _) = then(run, RunEvent::QueueClosed);
    let (run, _) = then(run, RunEvent::WorkerFinished);
    let (run, action) = then(run, RunEvent::WorkerFailed);
    assert_eq!(action, RunAction::Abort { error: RunError::WorkerFailed });
    assert_eq!(run.stage, Stage::Done);
}

#[test]
fn run_events_out_of_turn_change_nothing() {
    let all = || {
        vec![
            RunEvent::Start,
            RunEvent::InputRead { text: "x".to_string() },
            RunEvent::InputUnreadable,
            RunEvent::WorkersStarted,
            RunEvent::Pushed,
            RunEvent::PushFailed,
            RunEvent::QueueClosed,
            RunEvent::WorkerFinished,
            RunEvent::WorkerFailed,
        ]
    };
    let fresh = Orchestrator::new(config(1));
    let (reading, _) = then(fresh.clone(), RunEvent::Start);
    let (starting, _) = then(reading.clone(), RunEvent::InputRead { text: "a,b".to_string() });
    let (pushing, _) = then(starting.clone(), RunEvent::WorkersStarted);
    let (pushing_last, _) = then(pushing.clone(), RunEvent::Pushed);
    let (closing, _) = then(pushing_last.clone(), RunEvent::Pushed);
    let (joining, _) = then(closing.clone(), RunEvent::QueueClosed);
    let (done, _) = then(joining.clone(), RunEvent::WorkerFinished);
    let stages = [
        (fresh, 1),
        (reading, 2),
        (starting, 1),
        (pushing, 2),
        (closing, 1),
        (joining, 2),
        (done, 0),
    ];
    for (run, fitting) in stages {
        let mut accepted = 0;
        for event in all() {
            let (after, action) = run.clone().step(event);
            if action.is_some() {
                accepted += 1;
            } else {
                assert_eq!(after, run);
            }
        }
        assert_eq!(accepted, fitting, "stage {:?}", run.stage);
    }
}

#[test]
fn run_error_messages() {
    assert_eq!(RunError::InputUnreadable.message(), "Error reading file");
    assert_eq!(
        RunError::QueueSevered.message(),
        "the queue was closed while URLs were still pushed"
    );
    assert_eq!(RunError::WorkerFailed.message(), "a worker ended abnormally");
}
