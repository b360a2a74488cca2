//! The protocol's data model: the messages exchanged between the core
//! scheduler and an executor, and the per-job request derived from a build
//! request.

use vstd::prelude::*;

verus! {

/// One unit of build work within a repository checkout. The protocol layer
/// treats it as opaque data: it only pairs a job with its repository
/// context and hands it to the execution engine.
#[derive(Debug)]
pub struct Job {
    pub name: String,
    pub image: String,
    pub script: String,
}

impl Clone for Job {
    fn clone(&self) -> (res: Self)
        ensures
            res == *self,
    {
        Job { name: self.name.clone(), image: self.image.clone(), script: self.script.clone() }
    }
}

/// Outcome of one job execution, opaque to the protocol beyond success or
/// failure and correlation metadata.
#[derive(Debug)]
pub struct JobOutcome {
    pub job_name: String,
    pub success: bool,
}

/// The repository configuration carried by a build request: the jobs to
/// run, in the order they must be executed.
#[derive(Debug)]
pub struct RepoConfig {
    pub jobs: Vec<Job>,
}

/// A request to execute all jobs of one repository checkout.
#[derive(Debug)]
pub struct BuildRequest {
    pub repo_url: String,
    pub reference: String,
    pub repo_config: RepoConfig,
}

/// The request handed to the execution engine for one job: the shared
/// repository context paired with one job definition.
#[derive(Debug)]
pub struct JobBuildRequest {
    pub repo_url: String,
    pub reference: String,
    pub job: Job,
}

/// Answer to a status probe. Only `Available` is ever reported by this
/// executor; the variant set is open for future states.
#[derive(Clone, Copy, Debug, PartialEq, Eq, Structural)]
pub enum ExecutorStatus {
    Available,
}

/// A protocol message, discriminated by kind. Registration messages are
/// legal only during the handshake; everything else flows through the
/// dispatch loop.
#[derive(Debug)]
pub enum Message {
    /// executor to core: "I am a new executor, assign me an identity."
    RegisterRequest,
    /// core to executor: assigns the executor's identity for this session.
    RegisterResponse { id: String },
    /// core to executor: execute all jobs for a repository checkout.
    BuildRequest(BuildRequest),
    /// executor to core: the outcome of one job.
    JobResult(JobOutcome),
    /// core to executor: health probe.
    StatusQuery,
    /// executor to core: answer to a probe.
    StatusResponse(ExecutorStatus),
    /// core to executor: orderly termination signal. The identity payload
    /// is advisory; it is not checked against the session's own identity.
    CloseConnection { id: String },
}

} // verus!
