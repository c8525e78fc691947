//! The order of the startup stages.

use vstd::prelude::*;
use crate::config::ConfigError;
use crate::endpoint::EndpointError;

verus! {

/// Where the startup stands.
#[derive(Debug, Clone, Copy, PartialEq, Eq, Structural)]
pub enum Stage {
    LoadConfig,
    ResolveEndpoint,
    EstablishPool,
    BuildEngine,
    Bind,
    Serving,
    Aborted,
}

/// Why no pool of connections could be had, or no connection from it.
#[derive(Debug, Clone, Copy, PartialEq, Eq, Structural)]
pub enum PoolError {
    ConnectionRefused,
    Timeout,
    Exhausted,
}

/// Why no engine could be composed.
#[derive(Debug, Clone, Copy, PartialEq, Eq, Structural)]
pub enum BuildError {
    CompositionFailed,
}

impl PoolError {
    /// Whether the failure ends the startup. A pool that is exhausted fails
    /// one request and no more.
    pub open spec fn spec_is_fatal(self) -> bool {
        self != PoolError::Exhausted
    }

    /// Whether the failure ends the startup.
    pub fn is_fatal(&self) -> (fatal: bool)
        ensures
            fatal == self.spec_is_fatal(),
    {
        match self {
            PoolError::ConnectionRefused => true,
            PoolError::Timeout => true,
            PoolError::Exhausted => false,
        }
    }
}

/// Why the startup ended before the server ran: the cause, under the stage
/// that it ended.
#[derive(Debug, Clone, PartialEq, Eq)]
pub enum StartupError {
    Config(ConfigError),
    Endpoint(EndpointError),
    Pool(PoolError),
    Build(BuildError),
    Bind,
}

impl StartupError {
    /// The stage whose work failed.
    pub open spec fn spec_stage(self) -> Stage {
        match self {
            StartupError::Config(_) => Stage::LoadConfig,
            StartupError::Endpoint(_) => Stage::ResolveEndpoint,
            StartupError::Pool(_) => Stage::EstablishPool,
            StartupError::Build(_) => Stage::BuildEngine,
            StartupError::Bind => Stage::Bind,
        }
    }

    /// The stage whose work failed.
    pub fn stage(&self) -> (stage: Stage)
        ensures
            stage == self.spec_stage(),
    {
        match self {
            StartupError::Config(_) => Stage::LoadConfig,
            StartupError::Endpoint(_) => Stage::ResolveEndpoint,
            StartupError::Pool(_) => Stage::EstablishPool,
            StartupError::Build(_) => Stage::BuildEngine,
            StartupError::Bind => Stage::Bind,
        }
    }
}

/// The diagnostic for a failure of the work of `stage`.
pub open spec fn spec_failure_message(stage: Stage) -> Seq<char> {
    match stage {
        Stage::LoadConfig => "Failed to parse config file"@,
        Stage::ResolveEndpoint => "Failed to parse endpoint from environment"@,
        Stage::EstablishPool => "Failed to create db endpoint"@,
        Stage::BuildEngine => "Failed to build engine"@,
        Stage::Bind => "Failed to start server"@,
        Stage::Serving => "Server stopped"@,
        Stage::Aborted => "Startup aborted"@,
    }
}

/// The diagnostic for a failure of the work of `stage`.
pub fn failure_message(stage: Stage) -> (message: &'static str)
    ensures
        message@ == spec_failure_message(stage),
{
    match stage {
        Stage::LoadConfig => "Failed to parse config file",
        Stage::ResolveEndpoint => "Failed to parse endpoint from environment",
        Stage::EstablishPool => "Failed to create db endpoint",
        Stage::BuildEngine => "Failed to build engine",
        Stage::Bind => "Failed to start server",
        Stage::Serving => "Server stopped",
        Stage::Aborted => "Startup aborted",
    }
}

/// The stage that follows `stage` once its work has ended, well or not.
/// A stage that failed aborts the startup; `Serving` and `Aborted` are final.
pub open spec fn spec_next(stage: Stage, succeeded: bool) -> Stage {
    match stage {
        Stage::Serving => Stage::Serving,
        Stage::Aborted => Stage::Aborted,
        _ => if !succeeded {
            Stage::Aborted
        } else {
            match stage {
                Stage::LoadConfig => Stage::ResolveEndpoint,
                Stage::ResolveEndpoint => Stage::EstablishPool,
                Stage::EstablishPool => Stage::BuildEngine,
                Stage::BuildEngine => Stage::Bind,
                _ => Stage::Serving,
            }
        },
    }
}

/// The stage reached from `stage` after the outcomes in `outcomes`, one per
/// stage that ran.
pub open spec fn spec_run(stage: Stage, outcomes: Seq<bool>) -> Stage
    decreases outcomes.len(),
{
    if outcomes.len() == 0 {
        stage
    } else {
        spec_run(spec_next(stage, outcomes[0]), outcomes.drop_first())
    }
}

/// Whether the listener is bound, or about to be, at this stage.
pub open spec fn spec_may_listen(stage: Stage) -> bool {
    stage == Stage::Bind || stage == Stage::Serving
}

/// The stage that follows `stage`.
pub fn next(stage: Stage, succeeded: bool) -> (following: Stage)
    ensures
        following == spec_next(stage, succeeded),
{
    match stage {
        Stage::Serving => Stage::Serving,
        Stage::Aborted => Stage::Aborted,
        Stage::LoadConfig => if succeeded { Stage::ResolveEndpoint } else { Stage::Aborted },
        Stage::ResolveEndpoint => if succeeded { Stage::EstablishPool } else { Stage::Aborted },
        Stage::EstablishPool => if succeeded { Stage::BuildEngine } else { Stage::Aborted },
        Stage::BuildEngine => if succeeded { Stage::Bind } else { Stage::Aborted },
        Stage::Bind => if succeeded { Stage::Serving } else { Stage::Aborted },
    }
}

/// Whether the listener is bound, or about to be, at this stage.
pub fn may_listen(stage: Stage) -> (listening: bool)
    ensures
        listening == spec_may_listen(stage),
{
    match stage {
        Stage::Bind => true,
        Stage::Serving => true,
        _ => false,
    }
}

/// The stage reached from the first one after the outcomes in `outcomes`.
pub fn run(outcomes: &Vec<bool>) -> (reached: Stage)
    ensures
        reached == spec_run(Stage::LoadConfig, outcomes@),
{
    let mut stage = Stage::LoadConfig;
    let mut i: usize = 0;
    proof {
        assert(outcomes@.skip(0) =~= outcomes@);
    }
    while i < outcomes.len()
        invariant
            i <= outcomes.len(),
            spec_run(stage, outcomes@.skip(i as int)) == spec_run(Stage::LoadConfig, outcomes@),
        decreases outcomes.len() - i,
    {
        proof {
            assert(outcomes@.skip(i as int).drop_first() =~= outcomes@.skip(i + 1));
        }
        stage = next(stage, outcomes[i]);
        i += 1;
    }
    stage
}

/// A stage that is final stays as it is, whatever is reported afterwards.
pub proof fn lemma_final_stages_stay(stage: Stage, outcomes: Seq<bool>)
    requires
        stage == Stage::Aborted || stage == Stage::Serving,
    ensures
        spec_run(stage, outcomes) == stage,
    decreases outcomes.len(),
{
    if outcomes.len() > 0 {
        lemma_final_stages_stay(stage, outcomes.drop_first());
    }
}

/// Every startup error ends the startup: the stage that follows the failed
/// one is `Aborted`, at which nothing listens.
pub proof fn lemma_startup_error_aborts(error: StartupError)
    ensures
        spec_next(error.spec_stage(), false) == Stage::Aborted,
        !spec_may_listen(spec_next(error.spec_stage(), false)),
{
}

/// How many stages have to succeed from `stage` on before the listener is
/// bound.
pub open spec fn spec_stages_before_bind(stage: Stage) -> nat {
    match stage {
        Stage::LoadConfig => 4,
        Stage::ResolveEndpoint => 3,
        Stage::EstablishPool => 2,
        Stage::BuildEngine => 1,
        _ => 0,
    }
}

/// Where a run that starts at `stage` comes to bind the listener, every
/// stage before the listener ran and succeeded.
pub proof fn lemma_listen_needs_successes(stage: Stage, outcomes: Seq<bool>)
    requires
        spec_may_listen(spec_run(stage, outcomes)),
    ensures
        outcomes.len() >= spec_stages_before_bind(stage),
        forall|i: int| 0 <= i < spec_stages_before_bind(stage) ==> outcomes[i],
    decreases outcomes.len(),
{
    if outcomes.len() > 0 {
        let following = spec_next(stage, outcomes[0]);
        let rest = outcomes.drop_first();
        if spec_stages_before_bind(stage) > 0 {
            if !outcomes[0] {
                lemma_final_stages_stay(following, rest);
            } else {
                lemma_listen_needs_successes(following, rest);
                assert forall|i: int| 0 <= i < spec_stages_before_bind(stage) implies outcomes[i] by {
                    if i > 0 {
                        assert(outcomes[i] == rest[i - 1]);
                    }
                }
            }
        }
    }
}

/// The listener is bound only after the configuration was loaded, the
/// endpoint resolved, the pool established and the engine built, each with
/// success: four outcomes at least, the first four of them good.
pub proof fn lemma_listen_needs_four_successes(outcomes: Seq<bool>)
    requires
        spec_may_listen(spec_run(Stage::LoadConfig, outcomes)),
    ensures
        outcomes.len() >= 4,
        outcomes[0] && outcomes[1] && outcomes[2] && outcomes[3],
{
    lemma_listen_needs_successes(Stage::LoadConfig, outcomes);
}

/// A failure at any of the four stages before the listener aborts the
/// startup for good: the listener is never bound.
pub proof fn lemma_failure_before_bind_aborts(outcomes: Seq<bool>, failed: int)
    requires
        0 <= failed < 4,
        failed < outcomes.len(),
        !outcomes[failed],
    ensures
        !spec_may_listen(spec_run(Stage::LoadConfig, outcomes)),
{
    if spec_may_listen(spec_run(Stage::LoadConfig, outcomes)) {
        lemma_listen_needs_successes(Stage::LoadConfig, outcomes);
    }
}

} // verus!
