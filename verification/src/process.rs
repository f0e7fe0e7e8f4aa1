//! The orchestrator's lifecycle as an explicit state machine.
//!
//! The host performs the outside work — spawning the service and runner
//! processes, probing the health endpoint, pumping output streams, killing
//! and draining — and feeds each outcome back as an event. Every decision
//! of what happens next is made here, as a pure step function.

use vstd::prelude::*;

verus! {

/// Lifecycle phase of a supervised run. Draining and completion carry the
/// runner's exit code, which is passed through unchanged.
#[derive(Debug, Clone, Copy, PartialEq, Eq, Structural)]
pub enum OrchestratorState {
    /// The service process is being spawned.
    Starting,
    /// The service is up; readiness probes are being attempted.
    HealthChecking { attempts_used: u64 },
    /// The runner is executing and streams are being pumped.
    Running,
    /// The runner exited; the service is being killed and readers joined so
    /// that no buffered line is dropped.
    Draining { exit_code: i32 },
    /// The run is over; the exit code is the runner's own.
    Done { exit_code: i32 },
    /// A spawn failure or the health-check timeout ended the run.
    Failed,
}

/// Outcome of the host's last piece of outside work.
#[derive(Debug, Clone, Copy, PartialEq, Eq, Structural)]
pub enum OrchestratorEvent {
    ServiceSpawned,
    ServiceSpawnFailed,
    ProbeSucceeded,
    ProbeFailed,
    RunnerSpawnFailed,
    RunnerExited { exit_code: i32 },
    Drained,
}

/// What the host must do next.
#[derive(Debug, Clone, Copy, PartialEq, Eq, Structural)]
pub enum OrchestratorAction {
    /// Attempt one readiness probe, after the configured interval.
    Probe,
    /// Spawn the runner process and pump its streams.
    SpawnRunner,
    /// Kill the service process; the run has failed with exit code one.
    KillService,
    /// Kill the service process (best effort) and join every reader task.
    KillServiceAndDrain,
    /// Report the run's result with this exit code.
    Exit { code: i32 },
    /// Nothing: the event does not apply to the state.
    Hold,
}

/// The transition relation: from a state and an event to the next state and
/// the host's next action. `max_attempts` is the health-check budget; the
/// probe whose failure exhausts it kills the service and fails the run.
/// An event that does not apply to the state changes nothing.
pub open spec fn step_spec(
    state: OrchestratorState,
    event: OrchestratorEvent,
    max_attempts: u64,
) -> (OrchestratorState, OrchestratorAction) {
    match (state, event) {
        (OrchestratorState::Starting, OrchestratorEvent::ServiceSpawned) => (
            OrchestratorState::HealthChecking { attempts_used: 0 },
            OrchestratorAction::Probe,
        ),
        (OrchestratorState::Starting, OrchestratorEvent::ServiceSpawnFailed) => (
            OrchestratorState::Failed,
            OrchestratorAction::Exit { code: 1 },
        ),
        (
            OrchestratorState::HealthChecking { attempts_used },
            OrchestratorEvent::ProbeSucceeded,
        ) => (OrchestratorState::Running, OrchestratorAction::SpawnRunner),
        (OrchestratorState::HealthChecking { attempts_used }, OrchestratorEvent::ProbeFailed) => {
            if attempts_used as int + 1 >= max_attempts as int {
                (OrchestratorState::Failed, OrchestratorAction::KillService)
            } else {
                (
                    OrchestratorState::HealthChecking {
                        attempts_used: (attempts_used + 1) as u64,
                    },
                    OrchestratorAction::Probe,
                )
            }
        },
        (OrchestratorState::Running, OrchestratorEvent::RunnerExited { exit_code }) => (
            OrchestratorState::Draining { exit_code },
            OrchestratorAction::KillServiceAndDrain,
        ),
        (OrchestratorState::Running, OrchestratorEvent::RunnerSpawnFailed) => (
            OrchestratorState::Failed,
            OrchestratorAction::KillService,
        ),
        (OrchestratorState::Draining { exit_code }, OrchestratorEvent::Drained) => (
            OrchestratorState::Done { exit_code },
            OrchestratorAction::Exit { code: exit_code },
        ),
        _ => (state, OrchestratorAction::Hold),
    }
}

/// Takes one step of the lifecycle.
pub fn step(state: OrchestratorState, event: OrchestratorEvent, max_attempts: u64) -> (r: (
    OrchestratorState,
    OrchestratorAction,
))
    ensures
        r == step_spec(state, event, max_attempts),
{
    match (state, event) {
        (OrchestratorState::Starting, OrchestratorEvent::ServiceSpawned) => (
            OrchestratorState::HealthChecking { attempts_used: 0 },
            OrchestratorAction::Probe,
        ),
        (OrchestratorState::Starting, OrchestratorEvent::ServiceSpawnFailed) => (
            OrchestratorState::Failed,
            OrchestratorAction::Exit { code: 1 },
        ),
        (OrchestratorState::HealthChecking { attempts_used: _ }, OrchestratorEvent::ProbeSucceeded) => (
            OrchestratorState::Running,
            OrchestratorAction::SpawnRunner,
        ),
        (
            OrchestratorState::HealthChecking { attempts_used },
            OrchestratorEvent::ProbeFailed,
        ) => {
            if attempts_used >= max_attempts || max_attempts - attempts_used == 1 {
                (OrchestratorState::Failed, OrchestratorAction::KillService)
            } else {
                (
                    OrchestratorState::HealthChecking { attempts_used: attempts_used + 1 },
                    OrchestratorAction::Probe,
                )
            }
        },
        (OrchestratorState::Running, OrchestratorEvent::RunnerExited { exit_code }) => (
            OrchestratorState::Draining { exit_code },
            OrchestratorAction::KillServiceAndDrain,
        ),
        (OrchestratorState::Running, OrchestratorEvent::RunnerSpawnFailed) => (
            OrchestratorState::Failed,
            OrchestratorAction::KillService,
        ),
        (OrchestratorState::Draining { exit_code }, OrchestratorEvent::Drained) => (
            OrchestratorState::Done { exit_code },
            OrchestratorAction::Exit { code: exit_code },
        ),
        (s, _) => (s, OrchestratorAction::Hold),
    }
}

/// The state after `n` failed probes in a row.
pub open spec fn after_failed_probes(
    state: OrchestratorState,
    n: nat,
    max_attempts: u64,
) -> OrchestratorState
    decreases n,
{
    if n == 0 {
        state
    } else {
        step_spec(
            after_failed_probes(state, (n - 1) as nat, max_attempts),
            OrchestratorEvent::ProbeFailed,
            max_attempts,
        ).0
    }
}

/// Against a probe that always fails, health checking reaches `Failed` after
/// exactly the configured number of attempts: after fewer it is still
/// checking, and it never leaves `Failed` afterwards.
pub proof fn lemma_health_check_exhausts_budget(n: nat, max_attempts: u64)
    requires
        max_attempts >= 1,
    ensures
        n < max_attempts ==> after_failed_probes(
            OrchestratorState::HealthChecking { attempts_used: 0 },
            n,
            max_attempts,
        ) == (OrchestratorState::HealthChecking { attempts_used: n as u64 }),
        n >= max_attempts ==> after_failed_probes(
            OrchestratorState::HealthChecking { attempts_used: 0 },
            n,
            max_attempts,
        ) == OrchestratorState::Failed,
    decreases n,
{
    if n > 0 {
        lemma_health_check_exhausts_budget((n - 1) as nat, max_attempts);
    }
}

/// Host and port denoted by a URL string: what url's parser reports when the
/// string parses as an absolute URL — the host when one is present, and the
/// explicitly written port when one is present (a scheme's default port
/// reads as absent). Nothing when the string does not parse.
pub uninterp spec fn url_host_port_of(url: Seq<char>) -> Option<(Option<Seq<char>>, Option<u16>)>;

/// Relies on `url::Url::parse` and the `host_str()` and `port()` accessors
/// of the parsed URL: the result depends on the URL string alone.
#[verifier::external_body]
fn extract_host_port(url: &str) -> (r: Option<(Option<String>, Option<u16>)>)
    ensures
        r.deep_view() == url_host_port_of(url@),
{
    match url::Url::parse(url) {
        Ok(u) => Some((u.host_str().map(|h| h.to_string()), u.port())),
        Err(_) => None,
    }
}

/// The address a readiness probe connects to: the configured URL's host and
/// port, a missing host reading as the local host and a missing port as the
/// service's conventional one. Nothing when the URL does not parse, which
/// the host treats as a failed probe.
pub fn health_target(health_url: &str) -> (r: Option<(String, u16)>)
    ensures
        match url_host_port_of(health_url@) {
            None => r is None,
            Some(hp) => {
                &&& r matches Some(t)
                &&& t.0@ == (match hp.0 {
                    Some(h) => h,
                    None => "localhost"@,
                })
                &&& t.1 == (match hp.1 {
                    Some(p) => p,
                    None => 1323u16,
                })
            },
        },
{
    match extract_host_port(health_url) {
        None => None,
        Some((host_opt, port_opt)) => {
            let host: String = match host_opt {
                Some(h) => h,
                None => "localhost".to_owned(),
            };
            let port: u16 = match port_opt {
                Some(p) => p,
                None => 1323,
            };
            Some((host, port))
        },
    }
}

} // verus!
