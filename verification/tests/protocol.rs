use water_executor::classify::{classify, Disposition, ReadFailure};
use water_executor::handshake::{
    accept_registration, complete_registration, register_request, HandshakeError,
};
use water_executor::msg::{
    BuildRequest, ExecutorStatus, Job, JobOutcome, Message, RepoConfig,
};
use water_executor::session::{step, Action, CloseReason, Event, State};

fn job(name: &str) -> Job {
    Job { name: name.to_string(), image: "alpine".to_string(), script: "make".to_string() }
}

fn outcome(name: &str, success: bool) -> JobOutcome {
    JobOutcome { job_name: name.to_string(), success }
}

fn build_request(names: &[&str]) -> Message {
    Message::BuildRequest(BuildRequest {
        repo_url: "https://example.test/repo.git".to_string(),
        reference: "main".to_string(),
        repo_config: RepoConfig { jobs: names.iter().map(|n| job(n)).collect() },
    })
}

/// The names of the job results sent by a list of actions, in order.
fn sent_results(actions: &[Action]) -> Vec<String> {
    let mut names = Vec::new();
    for a in actions {
        if let Action::Send(Message::JobResult(out)) = a {
            names.push(out.job_name.clone());
        }
    }
    names
}

#[test]
fn handshake_binds_assigned_identity() {
    assert!(matches!(register_request(), Message::RegisterRequest));
    let r = accept_registration(Message::RegisterResponse { id: "X".to_string() });
    assert_eq!(r.unwrap(), "X");
}

#[test]
fn handshake_rejects_every_other_variant() {
    let wrong = vec![
        Message::RegisterRequest,
        Message::StatusQuery,
        Message::StatusResponse(ExecutorStatus::Available),
        Message::CloseConnection { id: "X".to_string() },
        Message::JobResult(outcome("A", true)),
        build_request(&["A"]),
    ];
    for m in wrong {
        let r = accept_registration(m);
        assert_eq!(r.unwrap_err(), HandshakeError::UnexpectedVariant);
    }
}

#[test]
fn handshake_treats_even_a_disconnect_as_fatal() {
    let r = complete_registration(Err(ReadFailure::ConnectionReset));
    assert_eq!(r.unwrap_err(), HandshakeError::Unreadable);
    let r = complete_registration(Err(ReadFailure::Truncated));
    assert_eq!(r.unwrap_err(), HandshakeError::Unreadable);
    let r = complete_registration(Ok(Message::RegisterResponse { id: "X".to_string() }));
    assert_eq!(r.unwrap(), "X");
    let r = complete_registration(Ok(Message::StatusQuery));
    assert_eq!(r.unwrap_err(), HandshakeError::UnexpectedVariant);
}

#[test]
fn status_query_round_trip_twice() {
    let (s, acts) = step(State::Idle, Event::Received(Message::StatusQuery));
    assert!(matches!(s, State::Idle));
    assert_eq!(acts.len(), 1);
    assert!(matches!(
        acts[0],
        Action::Send(Message::StatusResponse(ExecutorStatus::Available))
    ));
    let (s, acts) = step(s, Event::Received(Message::StatusQuery));
    assert!(matches!(s, State::Idle));
    assert_eq!(acts.len(), 1);
    assert!(matches!(
        acts[0],
        Action::Send(Message::StatusResponse(ExecutorStatus::Available))
    ));
}

#[test]
fn build_sends_results_in_job_order() {
    let (s, acts) = step(State::Idle, Event::Received(build_request(&["A", "B", "C"])));
    assert!(matches!(&s, State::Building { next: 0, .. }));
    assert_eq!(acts.len(), 1);
    match &acts[0] {
        Action::RunJob(req) => {
            assert_eq!(req.job.name, "A");
            assert_eq!(req.repo_url, "https://example.test/repo.git");
            assert_eq!(req.reference, "main");
        }
        other => panic!("expected a run action, got {other:?}"),
    }

    let mut all_sent = Vec::new();
    let (s, acts) = step(s, Event::Executed(outcome("A", true)));
    all_sent.extend(sent_results(&acts));
    assert!(matches!(&s, State::Building { next: 1, .. }));
    assert!(matches!(&acts[1], Action::RunJob(req) if req.job.name == "B"));
    assert_eq!(all_sent, vec!["A".to_string()]);

    let (s, acts) = step(s, Event::Executed(outcome("B", true)));
    all_sent.extend(sent_results(&acts));
    assert!(matches!(&s, State::Building { next: 2, .. }));
    assert!(matches!(&acts[1], Action::RunJob(req) if req.job.name == "C"));
    assert_eq!(all_sent, vec!["A".to_string(), "B".to_string()]);

    let (s, acts) = step(s, Event::Executed(outcome("C", true)));
    all_sent.extend(sent_results(&acts));
    assert!(matches!(s, State::Idle));
    assert_eq!(acts.len(), 1);
    assert_eq!(
        all_sent,
        vec!["A".to_string(), "B".to_string(), "C".to_string()]
    );
}

#[test]
fn build_with_no_jobs_stays_idle() {
    let (s, acts) = step(State::Idle, Event::Received(build_request(&[])));
    assert!(matches!(s, State::Idle));
    assert!(acts.is_empty());
}

#[test]
fn failing_job_aborts_the_batch() {
    let (s, _) = step(State::Idle, Event::Received(build_request(&["A", "B", "C"])));
    let (s, acts) = step(s, Event::Executed(outcome("A", true)));
    assert_eq!(sent_results(&acts), vec!["A".to_string()]);
    let (s, acts) = step(s, Event::ExecutionFailed);
    assert!(acts.is_empty());
    match s {
        State::Closed(reason) => {
            assert_eq!(reason, CloseReason::ExecutionFailure);
            assert!(!reason.is_success());
        }
        other => panic!("expected a closed session, got {other:?}"),
    }
}

#[test]
fn close_connection_ends_with_success_whatever_the_id() {
    for id in ["", "X", "someone-else"] {
        let (s, acts) = step(
            State::Idle,
            Event::Received(Message::CloseConnection { id: id.to_string() }),
        );
        assert!(acts.is_empty());
        match s {
            State::Closed(reason) => {
                assert_eq!(reason, CloseReason::PeerClose);
                assert!(reason.is_success());
            }
            other => panic!("expected a closed session, got {other:?}"),
        }
    }
}

#[test]
fn disconnect_is_graceful_and_malformed_is_fatal() {
    let (s, acts) = step(State::Idle, Event::ReadFailed(ReadFailure::ConnectionReset));
    assert!(acts.is_empty());
    match s {
        State::Closed(reason) => {
            assert_eq!(reason, CloseReason::GracefulDisconnect);
            assert!(reason.is_success());
        }
        other => panic!("expected a closed session, got {other:?}"),
    }

    let (s, acts) = step(State::Idle, Event::ReadFailed(ReadFailure::Truncated));
    assert!(acts.is_empty());
    match s {
        State::Closed(reason) => {
            assert_eq!(reason, CloseReason::ProtocolViolation);
            assert!(!reason.is_success());
        }
        other => panic!("expected a closed session, got {other:?}"),
    }
}

#[test]
fn unexpected_variants_in_idle_are_fatal() {
    let wrong = vec![
        Message::RegisterRequest,
        Message::RegisterResponse { id: "X".to_string() },
        Message::JobResult(outcome("A", true)),
        Message::StatusResponse(ExecutorStatus::Available),
    ];
    for m in wrong {
        let (s, acts) = step(State::Idle, Event::Received(m));
        assert!(acts.is_empty());
        match s {
            State::Closed(reason) => {
                assert_eq!(reason, CloseReason::ProtocolViolation);
                assert!(!reason.is_success());
            }
            other => panic!("expected a closed session, got {other:?}"),
        }
    }
}

#[test]
fn classifier_partitions_read_failures() {
    assert_eq!(classify(ReadFailure::ConnectionReset), Disposition::Graceful);
    assert_eq!(classify(ReadFailure::ConnectionAborted), Disposition::Graceful);
    assert_eq!(classify(ReadFailure::EndOfStream), Disposition::Graceful);
    assert_eq!(classify(ReadFailure::OtherIo), Disposition::Fatal);
    assert_eq!(classify(ReadFailure::Truncated), Disposition::Fatal);
}
