//! Whole-run scenarios: relay, client session, phase, and build outcome.

use codegen_pipeline::artifact::accumulate_fragments;
use codegen_pipeline::client::ClientRun;
use codegen_pipeline::fault::{describe_error, phase_of_error, RunError};
use codegen_pipeline::gateway::accumulate_raw;
use codegen_pipeline::orchestrator::{
    combined_output, finish_build, manifest_path, phase_after_build, project_root, source_path,
    BuildResult, ProjectDir,
};
use codegen_pipeline::phase::{step, Phase, RunEvent};
use codegen_pipeline::relay::{publish_fragments, Relay};

fn fragment(payload: &str) -> String {
    let mut v = serde_json::Map::new();
    v.insert(
        String::from("response"),
        serde_json::Value::String(String::from(payload)),
    );
    serde_json::Value::Object(v).to_string()
}

#[test]
fn hello_run_reaches_done_with_exact_artifact() {
    // Submit the prompt and check the relay slot.
    let mut relay = Relay::new();
    let ack = relay.submit(String::from("hello"));
    assert_eq!(ack, "Prompt received");
    assert_eq!(relay.current_prompt(), "hello");

    // The gateway emits two payload fragments, then the sentinel.
    let frags = vec![fragment("fn "), fragment("main(){}"), fragment("__DOWNLOAD__")];
    let lines = publish_fragments(&frags);
    assert_eq!(lines, vec!["data:fn ", "data:main(){}", "data:__DOWNLOAD__"]);

    // The client consumes the push stream.
    let (mut run, body) = ClientRun::start("hello");
    assert_eq!(body, "{\"prompt\":\"hello\"}");
    assert!(matches!(run.phase, Phase::Sending));
    assert!(run.running);
    run.on_stream_opened();
    assert!(matches!(run.phase, Phase::Streaming));
    let mut chunk = String::new();
    for l in &lines {
        chunk.push_str(l);
        chunk.push('\n');
    }
    run.on_chunk(&chunk);
    assert_eq!(run.acc.text, "fn main(){}");
    assert!(run.acc.finished);
    run.on_close();
    assert!(matches!(run.phase, Phase::Done));
    assert!(!run.running);

    // Persisting leaves exactly that text at the fixed source path.
    let mut dir = ProjectDir::new();
    dir.persist(&run.acc.text);
    assert_eq!(dir.source.as_deref(), Some("fn main(){}"));
    assert_eq!(source_path(), "Rust_Project/src/main.rs");
    assert_eq!(manifest_path(), "Rust_Project/Cargo.toml");
    assert_eq!(project_root(), "Rust_Project");
}

#[test]
fn raw_fragment_stream_accumulates_payloads() {
    let frags = vec![fragment("a"), fragment("b"), fragment("__DOWNLOAD__"), fragment("c")];
    assert_eq!(accumulate_raw(&frags), "ab");
}

#[test]
fn undecodable_fragment_does_not_abort_the_stream() {
    let frags = vec![fragment("fn "), String::from("not json"), fragment("main(){}")];
    assert_eq!(accumulate_raw(&frags), "fn main(){}");
    // The same resilience at the decode-result level.
    let decoded = vec![
        Some(String::from("fn ")),
        None,
        Some(String::from("main(){}")),
    ];
    assert_eq!(accumulate_fragments(&decoded), "fn main(){}");
}

#[test]
fn fragment_without_payload_field_is_skipped() {
    let frags = vec![String::from("{\"other\":\"x\"}"), fragment("ok")];
    assert_eq!(accumulate_raw(&frags), "ok");
}

#[test]
fn stream_without_sentinel_still_ends_with_one() {
    let frags = vec![fragment("a")];
    let lines = publish_fragments(&frags);
    assert_eq!(lines, vec!["data:a", "data:__DOWNLOAD__"]);
    let empty: Vec<String> = vec![];
    assert_eq!(publish_fragments(&empty), vec!["data:__DOWNLOAD__"]);
}

#[test]
fn download_before_staging_is_not_found() {
    let relay = Relay::new();
    assert!(relay.fetch_artifact_archive().is_none());
}

#[test]
fn download_after_staging_serves_the_bytes() {
    let mut relay = Relay::new();
    relay.stage_archive(vec![0x50, 0x4b, 0x03, 0x04]);
    assert_eq!(relay.fetch_artifact_archive(), Some(&vec![0x50, 0x4b, 0x03, 0x04]));
}

#[test]
fn submissions_are_last_writer_wins() {
    let mut relay = Relay::new();
    relay.submit(String::from("first"));
    relay.submit(String::from("second"));
    assert_eq!(relay.current_prompt(), "second");
}

#[test]
fn unsubmitted_prompt_falls_back_to_placeholder() {
    let relay = Relay::new();
    assert_eq!(relay.current_prompt(), "Write a rust program");
}

#[test]
fn failed_build_reports_stderr_and_status() {
    let outcome: Result<(String, String, i32), String> =
        Ok((String::new(), String::from("error[E0000]"), 101));
    let r = finish_build(outcome);
    match &r {
        BuildResult::Finished { stdout, stderr, exit_code } => {
            assert_eq!(stdout, "");
            assert_eq!(stderr, "error[E0000]");
            assert_eq!(*exit_code, 101);
        }
        BuildResult::StartFailure { .. } => panic!("build ran"),
    }
    match phase_after_build(&r) {
        Phase::Error(m) => assert_eq!(m, "error[E0000]"),
        _ => panic!("failure must be reported"),
    }
    assert_eq!(combined_output(&r), "\nerror[E0000]");
}

#[test]
fn successful_build_reaches_done() {
    let r = finish_build(Ok((String::from("Hello\n"), String::new(), 0)));
    assert!(matches!(phase_after_build(&r), Phase::Done));
    assert_eq!(combined_output(&r), "Hello\n\n");
}

#[test]
fn unstartable_build_is_a_terminal_error() {
    let r = finish_build(Err(String::from("No such file or directory")));
    match phase_after_build(&r) {
        Phase::Error(m) => assert_eq!(m, "No such file or directory"),
        _ => panic!("start failure must be an error"),
    }
    assert_eq!(combined_output(&r), "Failed: No such file or directory");
}

#[test]
fn persist_twice_leaves_only_the_second_run() {
    let mut dir = ProjectDir::new();
    dir.persist("use serde; fn one() {}");
    dir.persist("fn two() {}");
    let mut fresh = ProjectDir::new();
    fresh.persist("fn two() {}");
    assert_eq!(dir.source, fresh.source);
    assert_eq!(dir.manifest, fresh.manifest);
    assert_eq!(dir.source.as_deref(), Some("fn two() {}"));
}

#[test]
fn phase_transitions_follow_the_table() {
    let p = step(Phase::Idle, RunEvent::Submitted);
    assert!(matches!(p, Phase::Sending));
    let p = step(p, RunEvent::StreamOpened);
    assert!(matches!(p, Phase::Streaming));
    let p = step(p, RunEvent::SentinelOrClose);
    assert!(matches!(p, Phase::Done));
    let p = step(p, RunEvent::Submitted);
    assert!(matches!(p, Phase::Sending));
}

#[test]
fn failure_is_terminal_until_resubmission() {
    let p = step(Phase::Streaming, RunEvent::Failed(String::from("boom")));
    match &p {
        Phase::Error(m) => assert_eq!(m, "boom"),
        _ => panic!("expected error"),
    }
    let p2 = step(p, RunEvent::StreamOpened);
    assert!(matches!(p2, Phase::Error(_)));
    let p3 = step(p2, RunEvent::Failed(String::from("later")));
    match &p3 {
        Phase::Error(m) => assert_eq!(m, "boom"),
        _ => panic!("first failure is kept"),
    }
    assert!(matches!(step(p3, RunEvent::Submitted), Phase::Sending));
}

#[test]
fn client_failure_keeps_artifact_and_clears_running() {
    let (mut run, _body) = ClientRun::start("p");
    run.on_stream_opened();
    run.on_chunk("data:partial\n");
    run.on_failure(String::from("connection reset"));
    match &run.phase {
        Phase::Error(m) => assert_eq!(m, "connection reset"),
        _ => panic!("expected error"),
    }
    assert_eq!(run.acc.text, "partial");
    assert!(!run.running);
}

#[test]
fn stream_closing_without_sentinel_is_not_success() {
    let (mut run, _body) = ClientRun::start("p");
    run.on_stream_opened();
    run.on_chunk("data:partial\n");
    assert!(!run.acc.finished);
    run.on_close();
    match &run.phase {
        Phase::Error(m) => assert_eq!(m, "stream closed before the end of generation"),
        _ => panic!("incomplete stream must not be a success"),
    }
    assert_eq!(run.acc.text, "partial");
    assert!(!run.running);
}

#[test]
fn correlated_stream_never_sees_another_prompt() {
    let mut relay = Relay::new();
    let first = relay.submit_correlated(String::from("mine"));
    assert_eq!(relay.correlated_prompt(first).as_deref(), Some("mine"));
    let second = relay.submit_correlated(String::from("theirs"));
    assert_eq!(relay.correlated_prompt(first), None);
    assert_eq!(relay.correlated_prompt(second).as_deref(), Some("theirs"));
    assert_eq!(relay.correlated_prompt(0), None);
}

#[test]
fn every_failure_surfaces_its_message() {
    let e = RunError::GatewayUnavailable(String::from("connection refused"));
    assert_eq!(describe_error(&e), "gateway unreachable: connection refused");
    match phase_of_error(&e) {
        Phase::Error(m) => assert_eq!(m, "gateway unreachable: connection refused"),
        _ => panic!("expected error phase"),
    }
    let e = RunError::WriteFailure(String::from("disk full"));
    assert_eq!(describe_error(&e), "write failure: disk full");
    let e = RunError::SubprocessStartFailure(String::from("not found"));
    assert_eq!(describe_error(&e), "build tool could not start: not found");
    let e = RunError::StreamTransportFailure;
    assert_eq!(describe_error(&e), "stream closed before the end of generation");
}

#[test]
fn chunking_does_not_change_the_artifact() {
    let (mut whole, _body) = ClientRun::start("p");
    whole.on_stream_opened();
    whole.on_chunk("data:a\ndata:b\ndata:__DOWNLOAD__\n");
    let (mut pieces, _body) = ClientRun::start("p");
    pieces.on_stream_opened();
    pieces.on_chunk("data:a\n");
    pieces.on_chunk("data:b\ndata:__DOWNLOAD__\n");
    assert_eq!(whole.acc.text, "ab");
    assert_eq!(pieces.acc.text, "ab");
    assert!(whole.acc.finished && pieces.acc.finished);
}

#[test]
fn non_data_lines_are_ignored_by_the_client() {
    let (mut run, _body) = ClientRun::start("p");
    run.on_stream_opened();
    run.on_chunk(": keepalive\ndata:x\n\ndata:y\n");
    assert_eq!(run.acc.text, "xy");
    assert!(!run.acc.finished);
}
