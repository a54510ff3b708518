use rusting::report::{Elapsed, Outcome, Reply, Report, Status};
use rusting::worker::{Action, Event, Worker, WorkerState};

fn took(secs: u64, nanos: u32) -> Elapsed {
    Elapsed { secs, nanos }
}

fn dequeued(url: &str) -> Event {
    Event::Dequeued { url: url.to_string() }
}

#[test]
fn new_worker_is_idle() {
    let worker = Worker::new(5);
    assert_eq!(worker.id, 5);
    assert_eq!(worker.state, WorkerState::Idle);
    assert!(!worker.is_done());
}

#[test]
fn idle_worker_requests_the_dequeued_url() {
    let (worker, action) = Worker::new(0).step(dequeued("http://a.test"));
    assert_eq!(worker.id, 0);
    assert_eq!(worker.state, WorkerState::Busy { url: "http://a.test".to_string() });
    assert_eq!(
        action,
        Some(Action::Request { url: "http://a.test".to_string(), timeout_secs: 30 })
    );
}

#[test]
fn idle_worker_requests_even_the_empty_token() {
    let (worker, action) = Worker::new(2).step(dequeued(""));
    assert_eq!(worker.state, WorkerState::Busy { url: String::new() });
    assert_eq!(action, Some(Action::Request { url: String::new(), timeout_secs: 30 }));
}

#[test]
fn idle_worker_stops_on_closed_queue() {
    let (worker, action) = Worker::new(1).step(Event::QueueClosed);
    assert_eq!(worker.state, WorkerState::Done);
    assert!(worker.is_done());
    assert_eq!(action, Some(Action::Stop));
}

#[test]
fn busy_worker_reports_a_success() {
    let (worker, _) = Worker::new(1).step(dequeued("http://a.test"));
    let reply = Reply::Answered {
        status: Status::new(200).unwrap(),
        final_url: "http://a.test/".to_string(),
    };
    let (worker, action) = worker.step(Event::Completed { reply, elapsed: took(0, 250_000_000) });
    assert_eq!(worker.state, WorkerState::Idle);
    let expected = Report {
        worker: 1,
        url: "http://a.test".to_string(),
        outcome: Outcome::Success {
            status: Status::new(200).unwrap(),
            final_url: "http://a.test/".to_string(),
        },
        elapsed: took(0, 250_000_000),
    };
    assert_eq!(action, Some(Action::Emit { report: expected.clone() }));
    assert_eq!(expected.line(), "[Worker 1]: http://a.test/ -> 200 OK: in 0.25s");
}

#[test]
fn busy_worker_reports_a_failure_for_its_own_url() {
    let (worker, _) = Worker::new(4).step(dequeued("nonsense"));
    let (worker, action) =
        worker.step(Event::Completed { reply: Reply::Failed, elapsed: took(0, 1_000_000) });
    assert_eq!(worker.state, WorkerState::Idle);
    match action {
        Some(Action::Emit { report }) => {
            assert_eq!(report.worker, 4);
            assert_eq!(report.url, "nonsense");
            assert_eq!(report.outcome, Outcome::RequestFailure);
            assert_eq!(report.line(), "[Worker 4]: nonsense -> 404 Not found: in 0.00s");
        }
        other => panic!("no report: {:?}", other),
    }
}

#[test]
fn busy_worker_reports_a_timeout() {
    let (worker, _) = Worker::new(0).step(dequeued("http://slow.test"));
    let (_, action) =
        worker.step(Event::Completed { reply: Reply::TimedOut, elapsed: took(30, 1_500_000) });
    match action {
        Some(Action::Emit { report }) => {
            assert_eq!(report.outcome, Outcome::Timeout);
            assert_eq!(report.line(), "[Worker 0]: http://slow.test -> Timeout: in 30.00s");
        }
        other => panic!("no report: {:?}", other),
    }
}

#[test]
fn late_answer_is_reported_as_timeout() {
    let (worker, _) = Worker::new(0).step(dequeued("http://slow.test"));
    let reply = Reply::Answered {
        status: Status::new(200).unwrap(),
        final_url: "http://slow.test/".to_string(),
    };
    let (_, action) = worker.step(Event::Completed { reply, elapsed: took(31, 0) });
    match action {
        Some(Action::Emit { report }) => {
            assert_eq!(report.outcome, Outcome::Timeout);
            assert_eq!(report.line(), "[Worker 0]: http://slow.test -> Timeout: in 31.00s");
        }
        other => panic!("no report: {:?}", other),
    }
}

#[test]
fn worker_goes_on_after_a_failure() {
    let (worker, _) = Worker::new(0).step(dequeued("bad"));
    let (worker, _) =
        worker.step(Event::Completed { reply: Reply::Failed, elapsed: took(0, 0) });
    let (worker, action) = worker.step(dequeued("http://next.test"));
    assert_eq!(worker.state, WorkerState::Busy { url: "http://next.test".to_string() });
    assert_eq!(
        action,
        Some(Action::Request { url: "http://next.test".to_string(), timeout_secs: 30 })
    );
}

#[test]
fn events_out_of_turn_change_nothing() {
    let idle = Worker::new(3);
    let (after, action) =
        idle.clone().step(Event::Completed { reply: Reply::Failed, elapsed: took(1, 0) });
    assert_eq!(after, idle);
    assert_eq!(action, None);

    let (busy, _) = Worker::new(3).step(dequeued("http://a.test"));
    let (after, action) = busy.clone().step(dequeued("http://b.test"));
    assert_eq!(after, busy);
    assert_eq!(action, None);
    let (after, action) = busy.clone().step(Event::QueueClosed);
    assert_eq!(after, busy);
    assert_eq!(action, None);

    let (done, _) = Worker::new(3).step(Event::QueueClosed);
    for event in [
        dequeued("http://a.test"),
        Event::QueueClosed,
        Event::Completed { reply: Reply::TimedOut, elapsed: took(30, 0) },
    ] {
        let (after, action) = done.clone().step(event);
        assert_eq!(after, done);
        assert_eq!(action, None);
    }
}
