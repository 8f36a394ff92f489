use ensembler::error::render_exit_status;
use ensembler::{CmdLineRunner, CmdResult, Error, ExitStatus, Result, Session, SinkAction, Stream};

/// Feeds a run the lines a program printed and its exit code, then settles it.
fn run_with(runner: &CmdLineRunner, lines: &[(Stream, &str)], code: Option<i32>) -> Result<CmdResult> {
    let (mut s, _) = Session::start(runner, 100);
    for (stream, line) in lines {
        s.on_line(*stream, line);
    }
    s.on_stream_closed(Stream::Stdout);
    s.on_stream_closed(Stream::Stderr);
    s.on_stdin_done();
    s.on_exit(ExitStatus::from_code(code));
    s.finish().0
}

#[test]
fn test_basic_execution() {
    let runner = CmdLineRunner::new("echo").arg("hello");
    let result = run_with(&runner, &[(Stream::Stdout, "hello")], Some(0)).unwrap();
    assert!(result.status.success());
    assert_eq!(result.stdout.trim(), "hello");
}

#[test]
fn test_multiple_args() {
    let runner = CmdLineRunner::new("echo").args(&["hello", "world"]);
    assert_eq!(runner.debug_string(), "echo hello world");
    let result = run_with(&runner, &[(Stream::Stdout, "hello world")], Some(0)).unwrap();
    assert!(result.status.success());
    assert_eq!(result.stdout.trim(), "hello world");
}

#[test]
fn test_stdout_capture() {
    let runner = CmdLineRunner::new("bash").arg("-c").arg("echo line1; echo line2; echo line3");
    let lines = [(Stream::Stdout, "line1"), (Stream::Stdout, "line2"), (Stream::Stdout, "line3")];
    let result = run_with(&runner, &lines, Some(0)).unwrap();
    assert!(result.status.success());
    assert_eq!(result.stdout, "line1\nline2\nline3\n");
}

#[test]
fn test_stderr_capture() {
    let runner = CmdLineRunner::new("bash").arg("-c").arg("echo error >&2");
    let result = run_with(&runner, &[(Stream::Stderr, "error")], Some(0)).unwrap();
    assert!(result.status.success());
    assert_eq!(result.stderr.trim(), "error");
    assert_eq!(result.stdout, "");
}

#[test]
fn test_combined_output() {
    let runner = CmdLineRunner::new("bash").arg("-c").arg("echo stdout; echo stderr >&2");
    let lines = [(Stream::Stdout, "stdout"), (Stream::Stderr, "stderr")];
    let result = run_with(&runner, &lines, Some(0)).unwrap();
    assert!(result.status.success());
    assert!(result.combined_output.contains("stdout"));
    assert!(result.combined_output.contains("stderr"));
}

#[test]
fn test_exit_code_failure() {
    let runner = CmdLineRunner::new("bash").arg("-c").arg("exit 42");
    let result = run_with(&runner, &[], Some(42));
    if let Err(Error::ScriptFailed(details)) = result {
        let (program, _args, _output, cmd_result) = *details;
        assert_eq!(program, "bash");
        assert_eq!(cmd_result.status.code(), Some(42));
    } else {
        panic!("Expected ScriptFailed error, got {:?}", result);
    }
}

#[test]
fn test_redaction_stdout() {
    let runner = CmdLineRunner::new("echo")
        .arg("my-secret-password")
        .redact(vec!["my-secret-password".to_string()]);
    let result = run_with(&runner, &[(Stream::Stdout, "my-secret-password")], Some(0)).unwrap();
    assert!(result.status.success());
    assert_eq!(result.stdout.trim(), "[redacted]");
    assert!(!result.stdout.contains("my-secret-password"));
}

#[test]
fn test_redaction_multiple() {
    let runner = CmdLineRunner::new("echo")
        .arg("secret1 and secret2")
        .redact(vec!["secret1".to_string(), "secret2".to_string()]);
    let result = run_with(&runner, &[(Stream::Stdout, "secret1 and secret2")], Some(0)).unwrap();
    assert!(result.status.success());
    assert_eq!(result.stdout.trim(), "[redacted] and [redacted]");
}

#[test]
fn test_redaction_stderr() {
    let runner = CmdLineRunner::new("bash")
        .arg("-c")
        .arg("echo my-api-key >&2")
        .redact(vec!["my-api-key".to_string()]);
    let result = run_with(&runner, &[(Stream::Stderr, "my-api-key")], Some(0)).unwrap();
    assert!(result.status.success());
    assert_eq!(result.stderr.trim(), "[redacted]");
    assert!(!result.stderr.contains("my-api-key"));
}

#[test]
fn test_stdin_string() {
    let runner = CmdLineRunner::new("cat").stdin_string("hello from stdin");
    assert_eq!(runner.stdin.as_deref(), Some("hello from stdin"));
    let (s, _) = Session::start(&runner, 100);
    assert!(s.stdin_pending);
    let result = run_with(&runner, &[(Stream::Stdout, "hello from stdin")], Some(0)).unwrap();
    assert!(result.status.success());
    assert_eq!(result.stdout.trim(), "hello from stdin");
}

#[test]
fn test_stdin_multiline() {
    let runner = CmdLineRunner::new("cat").stdin_string("line1\nline2\nline3");
    let lines = [(Stream::Stdout, "line1"), (Stream::Stdout, "line2"), (Stream::Stdout, "line3")];
    let result = run_with(&runner, &lines, Some(0)).unwrap();
    assert!(result.status.success());
    assert_eq!(result.stdout, "line1\nline2\nline3\n");
}

#[test]
fn test_cancellation() {
    let runner = CmdLineRunner::new("sleep").arg("10");
    let (mut s, _) = Session::start(&runner, 100);
    assert!(s.on_cancel());
    s.on_stream_closed(Stream::Stdout);
    s.on_stream_closed(Stream::Stderr);
    // a killed process reports no exit code
    s.on_exit(ExitStatus::from_code(None));
    let result = s.finish().0;
    assert!(matches!(result, Err(Error::Cancelled)), "Expected Cancelled error, got {:?}", result);
}

#[test]
fn test_opt_arg_some() {
    let runner = CmdLineRunner::new("echo").opt_arg(Some("-n")).arg("no_newline");
    assert_eq!(runner.args, vec!["-n".to_string(), "no_newline".to_string()]);
    assert_eq!(runner.display_string(), "echo -n no_newline");
    let result = run_with(&runner, &[(Stream::Stdout, "no_newline")], Some(0)).unwrap();
    assert!(result.status.success());
    assert_eq!(result.stdout, "no_newline\n");
}

#[test]
fn test_opt_arg_none() {
    let runner = CmdLineRunner::new("echo").opt_arg(None).arg("with_newline");
    assert_eq!(runner.args, vec!["with_newline".to_string()]);
    let result = run_with(&runner, &[(Stream::Stdout, "with_newline")], Some(0)).unwrap();
    assert!(result.status.success());
    assert_eq!(result.stdout.trim(), "with_newline");
}

#[test]
fn test_empty_output() {
    let runner = CmdLineRunner::new("true");
    let result = run_with(&runner, &[], Some(0)).unwrap();
    assert!(result.status.success());
    assert_eq!(result.stdout, "");
    assert_eq!(result.stderr, "");
}

#[test]
fn test_large_output() {
    let runner = CmdLineRunner::new("bash")
        .arg("-c")
        .arg("for i in $(seq 1 1000); do echo \"line $i\"; done");
    let texts: Vec<String> = (1..=1000).map(|i| format!("line {i}")).collect();
    let lines: Vec<(Stream, &str)> = texts.iter().map(|t| (Stream::Stdout, t.as_str())).collect();
    let result = run_with(&runner, &lines, Some(0)).unwrap();
    assert!(result.status.success());
    let line_count = result.stdout.lines().count();
    assert_eq!(line_count, 1000);
}

#[test]
fn test_display_format() {
    let runner = CmdLineRunner::new("echo").arg("hello").arg("world");
    let display = runner.display_string();
    assert_eq!(display, "echo hello world");
}

#[test]
fn test_debug_format() {
    let runner = CmdLineRunner::new("echo").arg("hello").arg("world");
    let debug = runner.debug_string();
    assert_eq!(debug, "echo hello world");
}

#[test]
fn test_cmd_result_default() {
    let result = CmdResult::default();
    assert_eq!(result.stdout, "");
    assert_eq!(result.stderr, "");
    assert_eq!(result.combined_output, "");
}

#[test]
fn test_error_message_contains_program_name() {
    let runner = CmdLineRunner::new("bash").arg("-c").arg("exit 1");
    let result = run_with(&runner, &[], Some(1));
    let error_msg = result.unwrap_err().message();
    assert!(error_msg.contains("bash"));
    assert!(error_msg.contains("exit code 1"));
}

#[test]
fn test_special_characters_in_args() {
    let runner = CmdLineRunner::new("echo").arg("hello world");
    assert_eq!(runner.args, vec!["hello world".to_string()]);
    let result = run_with(&runner, &[(Stream::Stdout, "hello world")], Some(0)).unwrap();
    assert!(result.status.success());
    assert_eq!(result.stdout.trim(), "hello world");
}

#[test]
fn test_newlines_in_output() {
    let runner = CmdLineRunner::new("printf").arg("a\nb\nc");
    let lines = [(Stream::Stdout, "a"), (Stream::Stdout, "b"), (Stream::Stdout, "c")];
    let result = run_with(&runner, &lines, Some(0)).unwrap();
    assert!(result.status.success());
    assert_eq!(result.stdout, "a\nb\nc\n");
}

#[test]
fn test_allow_non_zero() {
    let runner = CmdLineRunner::new("bash").arg("-c").arg("echo 'output'; exit 42").allow_non_zero(true);
    let result = run_with(&runner, &[(Stream::Stdout, "output")], Some(42)).unwrap();
    assert_eq!(result.status.code(), Some(42));
    assert_eq!(result.stdout.trim(), "output");
}

#[test]
fn test_allow_non_zero_false() {
    let runner = CmdLineRunner::new("bash").arg("-c").arg("exit 1").allow_non_zero(false);
    let result = run_with(&runner, &[], Some(1));
    assert!(matches!(result, Err(Error::ScriptFailed(_))));
}

#[test]
fn failure_message_has_status_and_trimmed_output() {
    let runner = CmdLineRunner::new("bash").arg("-c").arg("exit 1");
    let result = run_with(&runner, &[(Stream::Stdout, "  out"), (Stream::Stderr, "err  ")], Some(1));
    let err = result.unwrap_err();
    assert_eq!(err.message(), "bash exited with non-zero status: exit code 1\nout\nerr");
    match err {
        Error::ScriptFailed(details) => {
            assert_eq!(details.1, vec!["-c".to_string(), "exit 1".to_string()]);
            assert_eq!(details.2, "out\nerr");
            assert_eq!(details.3.combined_output, "  out\nerr  \n");
        }
        other => panic!("unexpected {:?}", other),
    }
}

#[test]
fn render_status_forms() {
    let mut r = CmdResult::default();
    r.status = ExitStatus::from_code(Some(-3));
    assert_eq!(render_exit_status(&r), "exit code -3");
    r.status = ExitStatus::from_code(Some(2147483647));
    assert_eq!(render_exit_status(&r), "exit code 2147483647");
    r.status = ExitStatus::from_code(Some(-2147483648));
    assert_eq!(render_exit_status(&r), "exit code -2147483648");
    r.status = ExitStatus::from_code(None);
    assert_eq!(render_exit_status(&r), "no exit status");
}

#[test]
fn other_error_messages() {
    assert_eq!(Error::Cancelled.message(), "cancelled");
    assert_eq!(Error::Internal("process has no id".to_string()).message(), "internal error: process has no id");
}

#[test]
fn combined_output_follows_arrival_order() {
    let runner = CmdLineRunner::new("prog");
    let lines = [(Stream::Stderr, "e1"), (Stream::Stdout, "o1"), (Stream::Stderr, "e2")];
    let result = run_with(&runner, &lines, Some(0)).unwrap();
    assert_eq!(result.stdout, "o1\n");
    assert_eq!(result.stderr, "e1\ne2\n");
    assert_eq!(result.combined_output, "e1\no1\ne2\n");
}

#[test]
fn same_lines_give_same_result() {
    let runner = CmdLineRunner::new("prog").redact(vec!["k".to_string()]);
    let lines = [(Stream::Stdout, "a k"), (Stream::Stderr, "b")];
    let a = run_with(&runner, &lines, Some(0)).unwrap();
    let b = run_with(&runner, &lines, Some(0)).unwrap();
    assert_eq!(a.stdout, b.stdout);
    assert_eq!(a.stderr, b.stderr);
    assert_eq!(a.combined_output, b.combined_output);
    assert_eq!(a.status, b.status);
}

#[test]
fn cancel_after_exit_changes_nothing() {
    let runner = CmdLineRunner::new("true");
    let (mut s, _) = Session::start(&runner, 100);
    assert_eq!(s.on_exit(ExitStatus::from_code(Some(0))), Some(100));
    assert_eq!(s.on_exit(ExitStatus::from_code(Some(0))), None);
    assert!(!s.on_cancel());
    s.on_stream_closed(Stream::Stdout);
    s.on_stream_closed(Stream::Stderr);
    assert!(s.finish().0.is_ok());
}

#[test]
fn unsettled_run_is_an_internal_error() {
    let runner = CmdLineRunner::new("true");
    let (mut s, _) = Session::start(&runner, 100);
    s.on_exit(ExitStatus::from_code(Some(0)));
    assert!(!s.is_settled());
    assert!(matches!(s.finish().0, Err(Error::Internal(_))));
}

#[test]
fn stderr_only_is_printed_above_the_display() {
    let runner = CmdLineRunner::new("bash").arg("-c").arg("echo oops >&2");
    let (mut s, _) = Session::start(&runner, 100);
    s.has_sink = true;
    let acts = s.on_line(Stream::Stderr, "oops");
    assert_eq!(acts.len(), 1);
    assert!(matches!(&acts[0], SinkAction::Println(t) if t == "oops"));
    s.on_stream_closed(Stream::Stdout);
    s.on_stream_closed(Stream::Stderr);
    s.on_exit(ExitStatus::from_code(Some(0)));
    let result = s.finish().0.unwrap();
    assert_eq!(result.stderr, "oops\n");
}

#[test]
fn stderr_to_progress_updates_the_display() {
    let runner = CmdLineRunner::new("prog").stderr_to_progress(true).redact(vec!["sk-123".to_string()]);
    let (mut s, _) = Session::start(&runner, 100);
    s.has_sink = true;
    let acts = s.on_line(Stream::Stderr, "key sk-123");
    assert_eq!(acts.len(), 2);
    assert!(matches!(&acts[0], SinkAction::Prop(k, v) if k == "ensembler_stdout" && v == "key [redacted]"));
    assert!(matches!(&acts[1], SinkAction::Update));
}

#[test]
fn failure_with_display_prints_transcript() {
    let runner = CmdLineRunner::new("prog");
    let (mut s, _) = Session::start(&runner, 100);
    s.has_sink = true;
    s.on_line(Stream::Stdout, "x");
    s.on_stream_closed(Stream::Stdout);
    s.on_stream_closed(Stream::Stderr);
    s.on_exit(ExitStatus::from_code(Some(1)));
    let (r, acts) = s.finish();
    assert!(matches!(r, Err(Error::ScriptFailed(_))));
    assert_eq!(acts.len(), 2);
    assert!(matches!(&acts[0], SinkAction::Status(ensembler::JobStatus::Failed)));
    assert!(matches!(&acts[1], SinkAction::Println(t) if t == "x"));
}

#[test]
fn secret_in_argument_is_redacted() {
    let runner = CmdLineRunner::new("echo").arg("sk-123").redact(vec!["sk-123".to_string()]);
    let result = run_with(&runner, &[(Stream::Stdout, "sk-123")], Some(0)).unwrap();
    assert_eq!(result.stdout, "[redacted]\n");
}

#[test]
fn echo_hello_scenario() {
    let runner = CmdLineRunner::new("echo").arg("hello");
    let result = run_with(&runner, &[(Stream::Stdout, "hello")], Some(0)).unwrap();
    assert_eq!(result.stdout, "hello\n");
}

#[test]
fn piped_text_is_echoed() {
    let runner = CmdLineRunner::new("cat").stdin_string("abc");
    let result = run_with(&runner, &[(Stream::Stdout, "abc")], Some(0)).unwrap();
    assert_eq!(result.stdout, "abc\n");
}

#[test]
fn unicode_white_space_is_trimmed_from_failure_output() {
    let runner = CmdLineRunner::new("prog");
    let result = run_with(&runner, &[(Stream::Stdout, "\u{3000}\tx y\u{a0}")], Some(3));
    match result {
        Err(Error::ScriptFailed(details)) => assert_eq!(details.2, "x y"),
        other => panic!("unexpected {:?}", other),
    }
}

#[test]
fn stream_open_until_closed() {
    let runner = CmdLineRunner::new("prog").stderr(ensembler::StdioMode::Null);
    let (mut s, _) = Session::start(&runner, 100);
    assert!(s.is_open(Stream::Stdout));
    assert!(!s.is_open(Stream::Stderr));
    s.on_stream_closed(Stream::Stdout);
    assert!(!s.is_open(Stream::Stdout));
}
