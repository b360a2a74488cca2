//! The dispatch state machine: one session from the end of the handshake
//! to `Closed`, driven by events and answering with actions.

use vstd::prelude::*;

use crate::classify::{classify, is_disconnect, Disposition, ReadFailure};
use crate::msg::{BuildRequest, ExecutorStatus, Job, JobBuildRequest, JobOutcome, Message};

verus! {

/// Why the session ended.
#[derive(Clone, Copy, Debug, PartialEq, Eq, Structural)]
pub enum CloseReason {
    /// The peer sent an orderly termination signal.
    PeerClose,
    /// The peer closed the connection while the session awaited the next
    /// command.
    GracefulDisconnect,
    /// A message invalid for the current state, or a read failure that is
    /// no disconnect.
    ProtocolViolation,
    /// A job execution failed: the batch and the connection are abandoned.
    ExecutionFailure,
}

/// The process exit contract: a session closed by the peer, orderly or by
/// disconnect, counts as success; everything else is a failure.
pub open spec fn reason_is_success(r: CloseReason) -> bool {
    r is PeerClose || r is GracefulDisconnect
}

impl CloseReason {
    /// Whether the run ends with a zero exit status.
    pub fn is_success(&self) -> (b: bool)
        ensures
            b == reason_is_success(*self),
    {
        matches!(self, CloseReason::PeerClose | CloseReason::GracefulDisconnect)
    }
}

/// The session's state. `Idle` is the only non-terminal state between
/// messages; `Building` is the sub-state inside one build request, with
/// `next` the index of the job whose execution is under way.
#[derive(Debug)]
pub enum State {
    /// Between messages, ready for the next command.
    Idle,
    /// Executing the jobs of one build request, strictly in order.
    Building { repo_url: String, reference: String, jobs: Vec<Job>, next: usize },
    /// Terminal: the session is over, for the reason given.
    Closed(CloseReason),
}

/// What the surrounding process feeds the machine.
#[derive(Debug)]
pub enum Event {
    /// One message was read and decoded.
    Received(Message),
    /// Reading the next message failed, with what the failure showed.
    ReadFailed(ReadFailure),
    /// The execution engine finished the job under way.
    Executed(JobOutcome),
    /// The execution engine failed to run the job under way.
    ExecutionFailed,
}

/// What the surrounding process must do next, in order.
#[derive(Debug)]
pub enum Action {
    /// Write this message on the connection.
    Send(Message),
    /// Invoke the execution engine on this paired job request.
    RunJob(JobBuildRequest),
}

/// Well-formedness: while building, the job under way exists.
pub open spec fn wf(s: State) -> bool {
    s matches State::Building { jobs, next, .. } ==> next < jobs@.len()
}

/// Which events can reach the machine in each state: messages and read
/// failures arrive only between messages, execution outcomes only while a
/// job is under way, and nothing after the session closed.
pub open spec fn accepts(s: State, e: Event) -> bool {
    match s {
        State::Idle => e is Received || e is ReadFailed,
        State::Building { .. } => e is Executed || e is ExecutionFailed,
        State::Closed(_) => false,
    }
}

/// The paired request for one job of a build.
pub open spec fn paired_request(repo_url: String, reference: String, job: Job) -> JobBuildRequest {
    JobBuildRequest { repo_url, reference, job }
}

/// One transition of the dispatch machine, as a mathematical function:
/// the next state and the actions to perform, in order.
pub open spec fn step_spec(s: State, e: Event) -> (State, Seq<Action>)
    recommends
        wf(s),
        accepts(s, e),
{
    match (s, e) {
        (State::Idle, Event::Received(m)) => match m {
            Message::BuildRequest(b) => {
                if b.repo_config.jobs@.len() == 0 {
                    (State::Idle, seq![])
                } else {
                    (
                        State::Building {
                            repo_url: b.repo_url,
                            reference: b.reference,
                            jobs: b.repo_config.jobs,
                            next: 0,
                        },
                        seq![
                            Action::RunJob(
                                paired_request(b.repo_url, b.reference, b.repo_config.jobs@[0]),
                            ),
                        ],
                    )
                }
            },
            Message::StatusQuery => (
                State::Idle,
                seq![Action::Send(Message::StatusResponse(ExecutorStatus::Available))],
            ),
            Message::CloseConnection { .. } => (State::Closed(CloseReason::PeerClose), seq![]),
            _ => (State::Closed(CloseReason::ProtocolViolation), seq![]),
        },
        (State::Idle, Event::ReadFailed(f)) => if is_disconnect(f) {
            (State::Closed(CloseReason::GracefulDisconnect), seq![])
        } else {
            (State::Closed(CloseReason::ProtocolViolation), seq![])
        },
        (State::Building { repo_url, reference, jobs, next }, Event::Executed(out)) => if next + 1
            < jobs@.len() {
            (
                State::Building { repo_url, reference, jobs, next: (next + 1) as usize },
                seq![
                    Action::Send(Message::JobResult(out)),
                    Action::RunJob(paired_request(repo_url, reference, jobs@[next + 1])),
                ],
            )
        } else {
            (State::Idle, seq![Action::Send(Message::JobResult(out))])
        },
        (State::Building { .. }, Event::ExecutionFailed) => (
            State::Closed(CloseReason::ExecutionFailure),
            seq![],
        ),
        (s0, _) => (s0, seq![]),
    }
}

/// One transition of the dispatch machine. Returns the next state and the
/// actions the caller must perform, in the order given, before feeding the
/// next event.
pub fn step(s: State, e: Event) -> (r: (State, Vec<Action>))
    requires
        wf(s),
        accepts(s, e),
    ensures
        r.0 == step_spec(s, e).0,
        r.1@ == step_spec(s, e).1,
        wf(r.0),
{
    match (s, e) {
        (State::Idle, Event::Received(m)) => match m {
            Message::BuildRequest(b) => {
                let BuildRequest { repo_url, reference, repo_config } = b;
                let jobs = repo_config.jobs;
                if jobs.len() == 0 {
                    let actions: Vec<Action> = Vec::new();
                    proof {
                        assert(actions@ =~= step_spec(s, e).1);
                    }
                    (State::Idle, actions)
                } else {
                    let first = JobBuildRequest {
                        repo_url: repo_url.clone(),
                        reference: reference.clone(),
                        job: jobs[0].clone(),
                    };
                    let mut actions: Vec<Action> = Vec::new();
                    actions.push(Action::RunJob(first));
                    proof {
                        assert(actions@ =~= step_spec(s, e).1);
                    }
                    (State::Building { repo_url, reference, jobs, next: 0 }, actions)
                }
            },
            Message::StatusQuery => {
                let mut actions: Vec<Action> = Vec::new();
                actions.push(Action::Send(Message::StatusResponse(ExecutorStatus::Available)));
                proof {
                    assert(actions@ =~= step_spec(s, e).1);
                }
                (State::Idle, actions)
            },
            Message::CloseConnection { .. } => {
                let actions: Vec<Action> = Vec::new();
                proof {
                    assert(actions@ =~= step_spec(s, e).1);
                }
                (State::Closed(CloseReason::PeerClose), actions)
            },
            _ => {
                let actions: Vec<Action> = Vec::new();
                proof {
                    assert(actions@ =~= step_spec(s, e).1);
                }
                (State::Closed(CloseReason::ProtocolViolation), actions)
            },
        },
        (State::Idle, Event::ReadFailed(f)) => {
            let actions: Vec<Action> = Vec::new();
            proof {
                assert(actions@ =~= step_spec(s, e).1);
            }
            match classify(f) {
                Disposition::Graceful => (State::Closed(CloseReason::GracefulDisconnect), actions),
                Disposition::Fatal => (State::Closed(CloseReason::ProtocolViolation), actions),
            }
        },
        (State::Building { repo_url, reference, jobs, next }, Event::Executed(out)) => {
            let mut actions: Vec<Action> = Vec::new();
            actions.push(Action::Send(Message::JobResult(out)));
            let len = jobs.len();
            if next < len - 1 {
                let request = JobBuildRequest {
                    repo_url: repo_url.clone(),
                    reference: reference.clone(),
                    job: jobs[next + 1].clone(),
                };
                actions.push(Action::RunJob(request));
                proof {
                    assert(actions@ =~= step_spec(s, e).1);
                }
                (State::Building { repo_url, reference, jobs, next: next + 1 }, actions)
            } else {
                proof {
                    assert(actions@ =~= step_spec(s, e).1);
                }
                (State::Idle, actions)
            }
        },
        (State::Building { .. }, Event::ExecutionFailed) => {
            let actions: Vec<Action> = Vec::new();
            proof {
                assert(actions@ =~= step_spec(s, e).1);
            }
            (State::Closed(CloseReason::ExecutionFailure), actions)
        },
        (s0, _) => {
            let actions: Vec<Action> = Vec::new();
            proof {
                assert(actions@ =~= step_spec(s, e).1);
            }
            (s0, actions)
        },
    }
}

/// Run the machine over a whole sequence of events, collecting every action
/// in the order it is handed to the caller.
pub open spec fn run_spec(s: State, events: Seq<Event>) -> (State, Seq<Action>)
    decreases events.len(),
{
    if events.len() == 0 {
        (s, seq![])
    } else {
        let first = step_spec(s, events[0]);
        let rest = run_spec(first.0, events.drop_first());
        (rest.0, first.1 + rest.1)
    }
}

/// The job results sent on the wire by an action sequence, in order.
pub open spec fn job_results_sent(acts: Seq<Action>) -> Seq<JobOutcome>
    decreases acts.len(),
{
    if acts.len() == 0 {
        seq![]
    } else {
        let rest = job_results_sent(acts.drop_first());
        match acts[0] {
            Action::Send(Message::JobResult(out)) => seq![out] + rest,
            _ => rest,
        }
    }
}

/// Results sent by a concatenation are the results of the parts, in order.
proof fn lemma_job_results_sent_add(a: Seq<Action>, b: Seq<Action>)
    ensures
        job_results_sent(a + b) == job_results_sent(a) + job_results_sent(b),
    decreases a.len(),
{
    if a.len() == 0 {
        assert(a + b =~= b);
        assert(job_results_sent(a) + job_results_sent(b) =~= job_results_sent(b));
    } else {
        lemma_job_results_sent_add(a.drop_first(), b);
        assert((a + b).drop_first() =~= a.drop_first() + b);
        assert((a + b)[0] == a[0]);
        match a[0] {
            Action::Send(Message::JobResult(out)) => {
                assert(seq![out] + (job_results_sent(a.drop_first()) + job_results_sent(b)) =~= (
                seq![out] + job_results_sent(a.drop_first())) + job_results_sent(b));
            },
            _ => {},
        }
    }
}

/// One `Executed` event per outcome, in order: what the execution engine
/// feeds back while every job of a build succeeds.
pub open spec fn executed_events(outs: Seq<JobOutcome>) -> Seq<Event> {
    outs.map_values(|out: JobOutcome| Event::Executed(out))
}

/// The events of one fully successful build: the request arrives, then the
/// execution engine reports one outcome per job, in order.
pub open spec fn build_events(b: BuildRequest, outcomes: Seq<JobOutcome>) -> Seq<Event> {
    seq![Event::Received(Message::BuildRequest(b))] + executed_events(outcomes)
}

/// The actions a build emits from the point where job `k` is under way and
/// every remaining execution succeeds: send job `k`'s result, start job
/// `k + 1`, and so on, ending with the last job's result.
pub open spec fn building_actions(
    repo_url: String,
    reference: String,
    jobs: Seq<Job>,
    outcomes: Seq<JobOutcome>,
    k: int,
) -> Seq<Action>
    recommends
        0 <= k < jobs.len(),
        outcomes.len() == jobs.len(),
    decreases jobs.len() - k,
    when 0 <= k < jobs.len()
{
    if k + 1 < jobs.len() {
        seq![
            Action::Send(Message::JobResult(outcomes[k])),
            Action::RunJob(paired_request(repo_url, reference, jobs[k + 1])),
        ] + building_actions(repo_url, reference, jobs, outcomes, k + 1)
    } else {
        seq![Action::Send(Message::JobResult(outcomes[k]))]
    }
}

/// From job `k` under way, feeding the remaining outcomes in order returns
/// the machine to `Idle` and emits exactly `building_actions` from `k`.
proof fn lemma_building_run(
    repo_url: String,
    reference: String,
    jobs: Vec<Job>,
    outcomes: Seq<JobOutcome>,
    k: int,
)
    requires
        0 <= k < jobs@.len(),
        outcomes.len() == jobs@.len(),
    ensures
        ({
            let events = executed_events(outcomes.skip(k));
            let r = run_spec(State::Building { repo_url, reference, jobs, next: k as usize }, events);
            &&& r.0 == State::Idle
            &&& r.1 == building_actions(repo_url, reference, jobs@, outcomes, k)
        }),
    decreases jobs@.len() - k,
{
    vstd::std_specs::vec::axiom_spec_len(&jobs);
    let events = executed_events(outcomes.skip(k));
    let s0 = State::Building { repo_url, reference, jobs, next: k as usize };
    assert((k as usize) as int == k);
    assert(events[0] == Event::Executed(outcomes[k]));
    if k + 1 < jobs@.len() {
        lemma_building_run(repo_url, reference, jobs, outcomes, k + 1);
        assert(events.drop_first() =~= executed_events(outcomes.skip(k + 1)));
        assert(step_spec(s0, events[0]).1 + building_actions(
            repo_url,
            reference,
            jobs@,
            outcomes,
            k + 1,
        ) =~= building_actions(repo_url, reference, jobs@, outcomes, k));
    } else {
        assert(events.len() == 1);
        assert(events.drop_first() =~= Seq::<Event>::empty());
        assert(step_spec(s0, events[0]).0 == State::Idle);
        assert(run_spec(step_spec(s0, events[0]).0, events.drop_first()).1 =~= Seq::<
            Action,
        >::empty());
        assert(run_spec(s0, events).0 == State::Idle);
        assert(step_spec(s0, events[0]).1 + Seq::<Action>::empty() =~= building_actions(
            repo_url,
            reference,
            jobs@,
            outcomes,
            k,
        ));
        assert(run_spec(s0, events).1 =~= building_actions(repo_url, reference, jobs@, outcomes, k));
    }
}

/// The results inside `building_actions` from job `k` on are exactly the
/// outcomes from `k` on, in order.
proof fn lemma_building_actions_results(
    repo_url: String,
    reference: String,
    jobs: Seq<Job>,
    outcomes: Seq<JobOutcome>,
    k: int,
)
    requires
        0 <= k < jobs.len(),
        outcomes.len() == jobs.len(),
    ensures
        job_results_sent(building_actions(repo_url, reference, jobs, outcomes, k))
            == outcomes.skip(k),
    decreases jobs.len() - k,
{
    let acts = building_actions(repo_url, reference, jobs, outcomes, k);
    if k + 1 < jobs.len() {
        lemma_building_actions_results(repo_url, reference, jobs, outcomes, k + 1);
        let pair = seq![
            Action::Send(Message::JobResult(outcomes[k])),
            Action::RunJob(paired_request(repo_url, reference, jobs[k + 1])),
        ];
        lemma_job_results_sent_add(pair, building_actions(repo_url, reference, jobs, outcomes, k + 1));
        assert(pair.drop_first() =~= seq![
            Action::RunJob(paired_request(repo_url, reference, jobs[k + 1])),
        ]);
        assert(pair.drop_first().drop_first() =~= Seq::<Action>::empty());
        assert(job_results_sent(Seq::<Action>::empty()) =~= Seq::<JobOutcome>::empty());
        assert(job_results_sent(pair.drop_first()) =~= Seq::<JobOutcome>::empty());
        assert(job_results_sent(pair) =~= seq![outcomes[k]]);
        assert(seq![outcomes[k]] + outcomes.skip(k + 1) =~= outcomes.skip(k));
    } else {
        assert(acts.drop_first() =~= Seq::<Action>::empty());
        assert(job_results_sent(Seq::<Action>::empty()) =~= Seq::<JobOutcome>::empty());
        assert(job_results_sent(acts) =~= seq![outcomes[k]]);
        assert(seq![outcomes[k]] =~= outcomes.skip(k));
    }
}

/// Build ordering law: for a build request all of whose job executions
/// succeed, the machine starts job 0, and after each outcome sends that
/// job's result before starting the next job, returning to `Idle` after the
/// last; the job results sent are exactly the outcomes, one per job, in the
/// order the jobs were listed.
pub proof fn lemma_build_ordering(b: BuildRequest, outcomes: Seq<JobOutcome>)
    requires
        outcomes.len() == b.repo_config.jobs@.len(),
        outcomes.len() > 0,
    ensures
        ({
            let r = run_spec(State::Idle, build_events(b, outcomes));
            &&& r.0 == State::Idle
            &&& r.1 == seq![
                Action::RunJob(paired_request(b.repo_url, b.reference, b.repo_config.jobs@[0])),
            ] + building_actions(b.repo_url, b.reference, b.repo_config.jobs@, outcomes, 0)
            &&& job_results_sent(r.1) == outcomes
        }),
{
    let events = build_events(b, outcomes);
    let start = seq![
        Action::RunJob(paired_request(b.repo_url, b.reference, b.repo_config.jobs@[0])),
    ];
    let rest_acts = building_actions(b.repo_url, b.reference, b.repo_config.jobs@, outcomes, 0);
    assert(events[0] == Event::Received(Message::BuildRequest(b)));
    assert(outcomes.skip(0) =~= outcomes);
    assert(events.drop_first() =~= executed_events(outcomes.skip(0)));
    lemma_building_run(b.repo_url, b.reference, b.repo_config.jobs, outcomes, 0);
    assert(step_spec(State::Idle, events[0]).0 == State::Building {
        repo_url: b.repo_url,
        reference: b.reference,
        jobs: b.repo_config.jobs,
        next: 0 as usize,
    });
    assert(run_spec(State::Idle, events).1 == start + rest_acts);
    lemma_job_results_sent_add(start, rest_acts);
    assert(start.drop_first() =~= Seq::<Action>::empty());
    assert(job_results_sent(Seq::<Action>::empty()) =~= Seq::<JobOutcome>::empty());
    assert(job_results_sent(start) =~= Seq::<JobOutcome>::empty());
    lemma_building_actions_results(b.repo_url, b.reference, b.repo_config.jobs@, outcomes, 0);
    assert(Seq::<JobOutcome>::empty() + outcomes.skip(0) =~= outcomes);
}

/// From job `k` under way, outcomes for the jobs that finish followed by a
/// failed execution close the session as an execution failure, and exactly
/// the finished jobs' results are sent.
proof fn lemma_building_fail_run(
    repo_url: String,
    reference: String,
    jobs: Vec<Job>,
    outs: Seq<JobOutcome>,
    k: int,
)
    requires
        0 <= k,
        k + outs.len() < jobs@.len(),
    ensures
        ({
            let events = executed_events(outs) + seq![Event::ExecutionFailed];
            let r = run_spec(State::Building { repo_url, reference, jobs, next: k as usize }, events);
            &&& r.0 == State::Closed(CloseReason::ExecutionFailure)
            &&& job_results_sent(r.1) == outs
        }),
    decreases outs.len(),
{
    vstd::std_specs::vec::axiom_spec_len(&jobs);
    let events = executed_events(outs) + seq![Event::ExecutionFailed];
    let s0 = State::Building { repo_url, reference, jobs, next: k as usize };
    assert((k as usize) as int == k);
    if outs.len() == 0 {
        assert(events =~= seq![Event::ExecutionFailed]);
        assert(events[0] == Event::ExecutionFailed);
        assert(events.drop_first() =~= Seq::<Event>::empty());
        let first = step_spec(s0, events[0]);
        assert(first.0 == State::Closed(CloseReason::ExecutionFailure));
        assert(first.1 =~= Seq::<Action>::empty());
        assert(run_spec(first.0, events.drop_first()).1 =~= Seq::<Action>::empty());
        assert(run_spec(s0, events).1 =~= Seq::<Action>::empty());
        assert(job_results_sent(Seq::<Action>::empty()) =~= Seq::<JobOutcome>::empty());
        assert(job_results_sent(run_spec(s0, events).1) =~= outs);
    } else {
        lemma_building_fail_run(repo_url, reference, jobs, outs.drop_first(), k + 1);
        assert(events[0] == Event::Executed(outs[0]));
        assert(events.drop_first() =~= executed_events(outs.drop_first()) + seq![
            Event::ExecutionFailed,
        ]);
        let first = step_spec(s0, events[0]);
        assert(first.0 == State::Building { repo_url, reference, jobs, next: (k + 1) as usize });
        let pair = seq![
            Action::Send(Message::JobResult(outs[0])),
            Action::RunJob(paired_request(repo_url, reference, jobs@[k + 1])),
        ];
        assert(first.1 =~= pair);
        let rest = run_spec(first.0, events.drop_first());
        assert(run_spec(s0, events).1 == pair + rest.1);
        lemma_job_results_sent_add(pair, rest.1);
        assert(pair.drop_first() =~= seq![
            Action::RunJob(paired_request(repo_url, reference, jobs@[k + 1])),
        ]);
        assert(pair.drop_first().drop_first() =~= Seq::<Action>::empty());
        assert(job_results_sent(Seq::<Action>::empty()) =~= Seq::<JobOutcome>::empty());
        assert(job_results_sent(pair.drop_first()) =~= Seq::<JobOutcome>::empty());
        assert(job_results_sent(pair) =~= seq![outs[0]]);
        assert(seq![outs[0]] + outs.drop_first() =~= outs);
    }
}

/// Fail-fast law: if, inside one build request, the execution of the job
/// after `outcomes.len()` finished jobs fails, the session closes as an
/// execution failure (a non-zero exit), exactly the finished jobs' results
/// have been sent, and none for the failing job or any job after it.
pub proof fn lemma_fail_fast(b: BuildRequest, outcomes: Seq<JobOutcome>)
    requires
        outcomes.len() < b.repo_config.jobs@.len(),
    ensures
        ({
            let events = seq![Event::Received(Message::BuildRequest(b))] + executed_events(outcomes)
                + seq![Event::ExecutionFailed];
            let r = run_spec(State::Idle, events);
            &&& r.0 == State::Closed(CloseReason::ExecutionFailure)
            &&& !reason_is_success(CloseReason::ExecutionFailure)
            &&& job_results_sent(r.1) == outcomes
        }),
{
    let events = seq![Event::Received(Message::BuildRequest(b))] + executed_events(outcomes)
        + seq![Event::ExecutionFailed];
    assert(events[0] == Event::Received(Message::BuildRequest(b)));
    assert(events.drop_first() =~= executed_events(outcomes) + seq![Event::ExecutionFailed]);
    let first = step_spec(State::Idle, events[0]);
    assert(first.0 == State::Building {
        repo_url: b.repo_url,
        reference: b.reference,
        jobs: b.repo_config.jobs,
        next: 0 as usize,
    });
    let start = seq![
        Action::RunJob(paired_request(b.repo_url, b.reference, b.repo_config.jobs@[0])),
    ];
    assert(first.1 =~= start);
    lemma_building_fail_run(b.repo_url, b.reference, b.repo_config.jobs, outcomes, 0);
    let rest = run_spec(first.0, events.drop_first());
    assert(run_spec(State::Idle, events).1 == start + rest.1);
    lemma_job_results_sent_add(start, rest.1);
    assert(start.drop_first() =~= Seq::<Action>::empty());
    assert(job_results_sent(Seq::<Action>::empty()) =~= Seq::<JobOutcome>::empty());
    assert(job_results_sent(start) =~= Seq::<JobOutcome>::empty());
    assert(Seq::<JobOutcome>::empty() + outcomes =~= outcomes);
}

/// Status round-trip law: a status query in `Idle` is answered with exactly
/// one `Available` status response and the machine stays in `Idle`, so a
/// second query is answered the same way.
pub proof fn lemma_status_roundtrip()
    ensures
        ({
            let events = seq![
                Event::Received(Message::StatusQuery),
                Event::Received(Message::StatusQuery),
            ];
            let r = run_spec(State::Idle, events);
            &&& r.0 == State::Idle
            &&& r.1 == seq![
                Action::Send(Message::StatusResponse(ExecutorStatus::Available)),
                Action::Send(Message::StatusResponse(ExecutorStatus::Available)),
            ]
        }),
{
    let events = seq![Event::Received(Message::StatusQuery), Event::Received(Message::StatusQuery)];
    let answer = Action::Send(Message::StatusResponse(ExecutorStatus::Available));
    assert(events.drop_first() =~= seq![Event::Received(Message::StatusQuery)]);
    assert(events.drop_first().drop_first() =~= Seq::<Event>::empty());
    assert(run_spec(State::Idle, Seq::<Event>::empty()).1 =~= Seq::<Action>::empty());
    assert(events.drop_first()[0] == Event::Received(Message::StatusQuery));
    assert(step_spec(State::Idle, Event::Received(Message::StatusQuery)).1 =~= seq![answer]);
    assert(run_spec(State::Idle, events.drop_first()).0 == State::Idle);
    assert(run_spec(State::Idle, events.drop_first()).1 =~= seq![answer]);
    assert(run_spec(State::Idle, events).1 =~= seq![answer, answer]);
}

/// Close handling law: an orderly termination signal received in `Idle`
/// closes the session as a success, whatever identity payload it carries,
/// and nothing more is sent.
pub proof fn lemma_close_any_id(id: String)
    ensures
        step_spec(State::Idle, Event::Received(Message::CloseConnection { id })).0 == State::Closed(
            CloseReason::PeerClose,
        ),
        step_spec(State::Idle, Event::Received(Message::CloseConnection { id })).1 == Seq::<
            Action,
        >::empty(),
        reason_is_success(CloseReason::PeerClose),
{
    assert(step_spec(State::Idle, Event::Received(Message::CloseConnection { id })).1 =~= Seq::<
        Action,
    >::empty());
}

/// Disconnect law: a read failure in `Idle` closes the session without
/// further writes; it counts as a success exactly when the failure is a
/// peer disconnect met between messages, and as a fatal protocol violation
/// otherwise. The two ends are distinguishable by their exit disposition.
pub proof fn lemma_disconnect_disposition(f: ReadFailure)
    ensures
        ({
            let r = step_spec(State::Idle, Event::ReadFailed(f));
            &&& r.1 == Seq::<Action>::empty()
            &&& r.0 matches State::Closed(reason) && reason_is_success(reason) == is_disconnect(f)
            &&& is_disconnect(f) ==> r.0 == State::Closed(CloseReason::GracefulDisconnect)
            &&& !is_disconnect(f) ==> r.0 == State::Closed(CloseReason::ProtocolViolation)
        }),
{
    assert(step_spec(State::Idle, Event::ReadFailed(f)).1 =~= Seq::<Action>::empty());
}

} // verus!
