use repostats::error::MyError;
use repostats::health;
use repostats::pipeline::{
    next_action, step, AcquireOutcome, Action, Event, Input, PipelineState, ProbeOutcome,
};
use repostats::stats::RawLanguage;

fn start(url: &str) -> PipelineState {
    repostats::pipeline::start(Input { url: url.to_string() })
}

#[test]
fn health_returns_fixed_greeting() {
    assert_eq!(health(), "Hello, developer.");
}

#[test]
fn start_state_asks_for_probe() {
    let st = start("http://example.com/repo.git");
    assert_eq!(next_action(&st), Action::Probe);
}

#[test]
fn transport_failure_fails_fetch() {
    let st = step(start("u"), Event::Probed(ProbeOutcome::TransportFailure));
    assert_eq!(next_action(&st), Action::Finish);
    match st {
        PipelineState::Done { outcome: Err(MyError::RequestGet(m)) } => {
            assert_eq!(m, "URL seems invalid.");
        }
        _ => panic!("expected a fetch failure"),
    }
}

#[test]
fn non_success_status_skips_clone() {
    // A 404 from the probe ends the run at once: the next action is Finish,
    // so neither a workspace nor a clone is ever asked for.
    let st = step(start("u"), Event::Probed(ProbeOutcome::Status(404)));
    assert_eq!(next_action(&st), Action::Finish);
    match st {
        PipelineState::Done { outcome: Err(MyError::RequestGet(m)) } => {
            assert_eq!(m, "GET request failed.");
        }
        _ => panic!("expected a fetch failure"),
    }
}

#[test]
fn successful_probe_asks_for_workspace() {
    let st = step(start("u"), Event::Probed(ProbeOutcome::Status(200)));
    assert_eq!(next_action(&st), Action::Acquire);
}

#[test]
fn workspace_creation_failure_is_io() {
    let st = step(start("u"), Event::Probed(ProbeOutcome::Status(200)));
    let st = step(
        st,
        Event::WorkspaceAcquired(AcquireOutcome::CreationFailed("disk full".to_string())),
    );
    match st {
        PipelineState::Done { outcome: Err(MyError::Io(m)) } => assert_eq!(m, "disk full"),
        _ => panic!("expected an I/O failure"),
    }
}

#[test]
fn unusable_path_is_temp_path_failure() {
    let st = step(start("u"), Event::Probed(ProbeOutcome::Status(200)));
    let st = step(st, Event::WorkspaceAcquired(AcquireOutcome::UnusablePath));
    match st {
        PipelineState::Done { outcome: Err(MyError::TempPath(m)) } => {
            assert_eq!(m, "Failed to make a temporary directory.");
        }
        _ => panic!("expected a workspace failure"),
    }
}

#[test]
fn invalid_git_remote_cleans_up() {
    // The URL probes fine but the clone fails: the run must still release
    // its workspace before it finishes, and end with a clone failure.
    let st = step(start("u"), Event::Probed(ProbeOutcome::Status(204)));
    let st = step(st, Event::WorkspaceAcquired(AcquireOutcome::Acquired("/tmp/ws1".to_string())));
    assert_eq!(next_action(&st), Action::CloneRepo);
    let st = step(st, Event::CloneFinished(false));
    assert_eq!(next_action(&st), Action::Release);
    match &st {
        PipelineState::AwaitCleanup { workspace, .. } => assert_eq!(workspace, "/tmp/ws1"),
        _ => panic!("expected cleanup before the end"),
    }
    let st = step(st, Event::Released);
    match st {
        PipelineState::Done { outcome: Err(MyError::GitClone(m)) } => {
            assert_eq!(m, "Failed to git clone.");
        }
        _ => panic!("expected a clone failure"),
    }
}

#[test]
fn missing_marker_directory_cleans_up() {
    let st = step(start("u"), Event::Probed(ProbeOutcome::Status(200)));
    let st = step(st, Event::WorkspaceAcquired(AcquireOutcome::Acquired("/tmp/ws2".to_string())));
    let st = step(st, Event::CloneFinished(true));
    assert_eq!(next_action(&st), Action::CheckMarker);
    let st = step(st, Event::MarkerChecked(false));
    assert_eq!(next_action(&st), Action::Release);
    let st = step(st, Event::Released);
    match st {
        PipelineState::Done { outcome: Err(MyError::GitClone(m)) } => {
            assert_eq!(m, ".git directory not found.");
        }
        _ => panic!("expected a clone failure"),
    }
}

#[test]
fn empty_repository_succeeds_with_zero_total() {
    // A reachable, valid, empty repository: the scanner reports nothing,
    // and the run succeeds with an empty list and an all-zero total, after
    // releasing its workspace.
    let st = step(start("http://example.com/empty.git"), Event::Probed(ProbeOutcome::Status(200)));
    let st = step(st, Event::WorkspaceAcquired(AcquireOutcome::Acquired("/tmp/ws3".to_string())));
    let st = step(st, Event::CloneFinished(true));
    let st = step(st, Event::MarkerChecked(true));
    assert_eq!(next_action(&st), Action::Scan);
    let st = step(st, Event::Scanned(Ok(Vec::new())));
    assert_eq!(next_action(&st), Action::Release);
    let st = step(st, Event::Released);
    match st {
        PipelineState::Done { outcome: Ok(body) } => {
            assert_eq!(body.origin, "http://example.com/empty.git");
            assert!(body.stats.is_empty());
            assert_eq!(body.total.files, 0);
            assert_eq!(body.total.lines, 0);
            assert_eq!(body.total.codes, 0);
            assert_eq!(body.total.comments, 0);
            assert_eq!(body.total.blanks, 0);
        }
        _ => panic!("expected success"),
    }
}

#[test]
fn scan_result_is_aggregated_into_response() {
    let raw = vec![
        RawLanguage { name: "Shell".to_string(), files: 1, code: 5, comments: 1, blanks: 0 },
        RawLanguage { name: "Rust".to_string(), files: 2, code: 30, comments: 4, blanks: 6 },
    ];
    let st = step(start("u"), Event::Probed(ProbeOutcome::Status(200)));
    let st = step(st, Event::WorkspaceAcquired(AcquireOutcome::Acquired("/tmp/ws4".to_string())));
    let st = step(st, Event::CloneFinished(true));
    let st = step(st, Event::MarkerChecked(true));
    let st = step(st, Event::Scanned(Ok(raw)));
    let st = step(st, Event::Released);
    match st {
        PipelineState::Done { outcome: Ok(body) } => {
            assert_eq!(body.stats.len(), 2);
            assert_eq!(body.stats[0].0, "Rust");
            assert_eq!(body.stats[0].1.lines, 40);
            assert_eq!(body.stats[1].0, "Shell");
            assert_eq!(body.stats[1].1.lines, 6);
            assert_eq!(body.total.files, 3);
            assert_eq!(body.total.lines, 46);
            assert_eq!(body.total.codes, 35);
            assert_eq!(body.total.comments, 5);
            assert_eq!(body.total.blanks, 6);
        }
        _ => panic!("expected success"),
    }
}

#[test]
fn scanner_error_maps_to_io_failure() {
    let st = step(start("u"), Event::Probed(ProbeOutcome::Status(200)));
    let st = step(st, Event::WorkspaceAcquired(AcquireOutcome::Acquired("/tmp/ws5".to_string())));
    let st = step(st, Event::CloneFinished(true));
    let st = step(st, Event::MarkerChecked(true));
    let st = step(st, Event::Scanned(Err("permission denied".to_string())));
    assert_eq!(next_action(&st), Action::Release);
    let st = step(st, Event::Released);
    match st {
        PipelineState::Done { outcome: Err(MyError::Io(m)) } => {
            assert_eq!(m, "permission denied");
        }
        _ => panic!("expected an I/O failure"),
    }
}

#[test]
fn error_message_is_the_carried_diagnostic() {
    let e = MyError::GitClone("Failed to git clone.".to_string());
    assert_eq!(e.message(), "Failed to git clone.");
    let e = MyError::Io("oops".to_string());
    assert_eq!(e.message(), "oops");
    let e = MyError::RequestGet("GET request failed.".to_string());
    assert_eq!(e.message(), "GET request failed.");
    let e = MyError::TempPath("no path".to_string());
    assert_eq!(e.message(), "no path");
}
