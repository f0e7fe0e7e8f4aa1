use karate_monitor::process::{
    health_target, step, OrchestratorAction, OrchestratorEvent, OrchestratorState,
};

#[test]
fn test_health_check_fails_after_exact_budget() {
    let max_attempts: u64 = 4;
    let (mut state, action) = step(
        OrchestratorState::Starting,
        OrchestratorEvent::ServiceSpawned,
        max_attempts,
    );
    assert_eq!(state, OrchestratorState::HealthChecking { attempts_used: 0 });
    assert_eq!(action, OrchestratorAction::Probe);

    // Against a probe that always fails: still checking for the first
    // max_attempts - 1 failures, Failed on exactly the last one.
    for i in 0..max_attempts {
        let (next, action) = step(state, OrchestratorEvent::ProbeFailed, max_attempts);
        if i + 1 < max_attempts {
            assert_eq!(next, OrchestratorState::HealthChecking { attempts_used: i + 1 });
            assert_eq!(action, OrchestratorAction::Probe);
        } else {
            assert_eq!(next, OrchestratorState::Failed);
            assert_eq!(action, OrchestratorAction::KillService);
        }
        state = next;
    }

    // Never more: Failed absorbs further events.
    let (after, action) = step(state, OrchestratorEvent::ProbeFailed, max_attempts);
    assert_eq!(after, OrchestratorState::Failed);
    assert_eq!(action, OrchestratorAction::Hold);
}

#[test]
fn test_happy_path_passes_exit_code_through() {
    let max_attempts: u64 = 30;
    let (s1, _) = step(OrchestratorState::Starting, OrchestratorEvent::ServiceSpawned, max_attempts);
    let (s2, a2) = step(s1, OrchestratorEvent::ProbeFailed, max_attempts);
    assert_eq!(a2, OrchestratorAction::Probe);
    let (s3, a3) = step(s2, OrchestratorEvent::ProbeSucceeded, max_attempts);
    assert_eq!(s3, OrchestratorState::Running);
    assert_eq!(a3, OrchestratorAction::SpawnRunner);
    let (s4, a4) = step(s3, OrchestratorEvent::RunnerExited { exit_code: 7 }, max_attempts);
    assert_eq!(s4, OrchestratorState::Draining { exit_code: 7 });
    assert_eq!(a4, OrchestratorAction::KillServiceAndDrain);
    let (s5, a5) = step(s4, OrchestratorEvent::Drained, max_attempts);
    assert_eq!(s5, OrchestratorState::Done { exit_code: 7 });
    assert_eq!(a5, OrchestratorAction::Exit { code: 7 });
}

#[test]
fn test_spawn_failures_are_fatal() {
    let (s, a) = step(OrchestratorState::Starting, OrchestratorEvent::ServiceSpawnFailed, 30);
    assert_eq!(s, OrchestratorState::Failed);
    assert_eq!(a, OrchestratorAction::Exit { code: 1 });

    let (s, a) = step(OrchestratorState::Running, OrchestratorEvent::RunnerSpawnFailed, 30);
    assert_eq!(s, OrchestratorState::Failed);
    assert_eq!(a, OrchestratorAction::KillService);
}

#[test]
fn test_health_target_parses_host_and_port() {
    assert_eq!(
        health_target("http://localhost:1323/"),
        Some(("localhost".to_string(), 1323))
    );
    // A missing port falls back to the service's conventional one.
    assert_eq!(
        health_target("http://example.test/health"),
        Some(("example.test".to_string(), 1323))
    );
    assert_eq!(
        health_target("https://h:8080/x"),
        Some(("h".to_string(), 8080))
    );
    assert_eq!(health_target("not a url"), None);
}
