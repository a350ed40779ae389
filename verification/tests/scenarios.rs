use assert_cli::Assert;
use assert_cli::CapturedResult;
use assert_cli::Content;
use assert_cli::Environment;
use assert_cli::TextPredicate;
use assert_cli::errors::AssertCause;
use assert_cli::errors::AssertionError;
use assert_cli::errors::SpawnError;

fn captured(code: Option<i32>, stdout: &str, stderr: &str) -> CapturedResult {
    CapturedResult {
        code,
        stdout: stdout.as_bytes().to_vec(),
        stderr: stderr.as_bytes().to_vec(),
    }
}

fn expect_err(r: Result<(), AssertionError>) -> AssertionError {
    match r {
        Err(e) => e,
        Ok(()) => panic!("the assertion should have failed"),
    }
}

#[test]
fn echo_42_succeeds() {
    // Command `echo 42`: expect success, stdout is exactly 42, stderr empty.
    let a = Assert::command(&["echo", "42"])
        .stdout()
        .is(Content::text("42"))
        .stderr()
        .is(Content::text(""));
    assert!(a.verify_captured(&captured(Some(0), "42\n", "")).is_ok());
}

#[test]
fn cat_missing_file_fails_with_one() {
    // Command `cat nonexistent-file`: expect exit code 1 and the message on
    // stderr.
    let a = Assert::command(&["cat", "nonexistent-file"])
        .fails_with(1)
        .and()
        .stderr()
        .contains(Content::text("No such file"));
    let got = captured(
        Some(1),
        "",
        "cat: nonexistent-file: No such file or directory\n",
    );
    assert!(a.verify_captured(&got).is_ok());
}

#[test]
fn printenv_with_explicit_environment() {
    // Command `printenv` with the environment cleared down to KEY=value.
    let env = Environment::empty().insert("KEY", "value");
    let compiled = env.compile();
    let mut simulated = String::new();
    for (k, v) in &compiled {
        simulated.push_str(k);
        simulated.push('=');
        simulated.push_str(v);
        simulated.push('\n');
    }
    let a = Assert::command(&["printenv"])
        .with_env(env)
        .stdout()
        .contains(Content::text("KEY=value"));
    assert!(a.verify_captured(&captured(Some(0), &simulated, "")).is_ok());

    // With KEY set to another value the predicate fails and the report names
    // the absent needle.
    let env2 = Environment::empty().insert("KEY", "other");
    let compiled2 = env2.compile();
    let mut simulated2 = String::new();
    for (k, v) in &compiled2 {
        simulated2.push_str(k);
        simulated2.push('=');
        simulated2.push_str(v);
        simulated2.push('\n');
    }
    let a2 = Assert::command(&["printenv"])
        .with_env(env2)
        .stdout()
        .contains(Content::text("KEY=value"));
    let err = expect_err(a2.verify_captured(&captured(Some(0), &simulated2, "")));
    let message = err.render_chain();
    assert!(message.contains("needle=```KEY=value```"));
    assert!(message.contains("Unexpected stdout"));
}

#[test]
fn first_failing_predicate_wins() {
    // Two failing stdout predicates: only the first is evaluated and
    // reported.
    let a = Assert::command(&["echo", "42"])
        .stdout()
        .contains(Content::text("first-needle"))
        .stdout()
        .contains(Content::text("second-needle"));
    let err = expect_err(a.verify_captured(&captured(Some(0), "42\n", "")));
    let message = err.render_chain();
    assert!(message.contains("first-needle"));
    assert!(!message.contains("second-needle"));
}

#[test]
fn status_mismatch_reports_both_streams() {
    let a = Assert::command(&["false"]);
    let err = expect_err(a.verify_captured(&captured(Some(1), "out-text", "err-text")));
    let message = err.render_chain();
    assert!(message.starts_with("Assertion failed for `false`"));
    assert!(message.contains("Unexpected return status: failure"));
    assert!(message.contains("stdout=```out-text```"));
    assert!(message.contains("stderr=```err-text```"));
}

#[test]
fn unexpected_success_reports_success() {
    let a = Assert::command(&["true"]).fails();
    let err = expect_err(a.verify_captured(&captured(Some(0), "", "")));
    assert!(err.render_chain().contains("Unexpected return status: success"));
}

#[test]
fn exit_code_mismatch_reports_codes() {
    let a = Assert::command(&["sh", "-c", "exit 3"]).fails_with(2);
    let err = expect_err(a.verify_captured(&captured(Some(3), "", "")));
    let message = err.render_chain();
    assert!(message.contains("expected=Some(2)"));
    assert!(message.contains("got=Some(3)"));
}

#[test]
fn signal_termination_is_not_success() {
    let a = Assert::command(&["sleep", "100"]);
    let err = expect_err(a.verify_captured(&captured(None, "", "")));
    assert!(err.render_chain().contains("Unexpected return status: failure"));
}

#[test]
fn ignore_status_skips_both_status_checks() {
    let a = Assert::command(&["false"]).fails_with(1).ignore_status();
    assert!(a.verify_captured(&captured(None, "", "")).is_ok());
}

#[test]
fn status_is_checked_before_predicates() {
    let a = Assert::command(&["false"])
        .stdout()
        .contains(Content::text("absent"));
    let err = expect_err(a.verify_captured(&captured(Some(1), "", "")));
    let message = err.render_chain();
    assert!(message.contains("Unexpected return status"));
    assert!(!message.contains("absent"));
}

struct TrimmedLengthIs(usize);

impl TextPredicate for TrimmedLengthIs {
    fn check(&self, text: &str) -> bool {
        text.trim().len() == self.0
    }
}

#[test]
fn satisfies_runs_the_user_check() {
    let a = Assert::command(&["echo", "42"])
        .stdout()
        .satisfies(Box::new(TrimmedLengthIs(2)), "bad length");
    assert!(a.verify_captured(&captured(Some(0), "42\n", "")).is_ok());

    let b = Assert::command(&["echo", "42"])
        .stdout()
        .satisfies(Box::new(TrimmedLengthIs(5)), "bad length");
    let err = expect_err(b.verify_captured(&captured(Some(0), "42\n", "")));
    let message = err.render_chain();
    assert!(message.contains("Predicate failed: bad length"));
}

#[test]
fn predicate_failure_names_the_stream() {
    let a = Assert::command(&["echo", "42"])
        .stderr()
        .contains(Content::text("missing"));
    let err = expect_err(a.verify_captured(&captured(Some(0), "42\n", "")));
    assert!(err.render_chain().contains("Unexpected stderr"));
}

#[test]
fn failed_exact_match_renders_a_diff() {
    let a = Assert::command(&["echo", "42"]).stdout().is(Content::text("1337"));
    let err = expect_err(a.verify_captured(&captured(Some(0), "42\n", "")));
    let message = err.render_chain();
    assert!(message.contains("Didn't match."));
    assert!(message.contains("\u{1b}[31m-1337\u{1b}[0m"));
}

#[test]
fn builder_collects_command_and_args() {
    let a = Assert::command(&["echo"]).with_args(&["-n", "42"]);
    assert_eq!(a.cmd, vec!["echo", "-n", "42"]);
}

#[test]
fn main_binary_uses_the_build_tool() {
    let a = Assert::main_binary();
    assert_eq!(a.cmd, vec!["cargo", "run", "--quiet", "--"]);
    let b = Assert::cargo_binary("hello");
    assert_eq!(b.cmd, vec!["cargo", "run", "--quiet", "--bin", "hello", "--"]);
    let c = Assert::example("demo");
    assert_eq!(c.cmd, vec!["cargo", "run", "--quiet", "--example", "demo", "--"]);
}

#[test]
fn in_place_mod() {
    let y = Environment::empty();

    let y = y.insert("key", "value");

    assert_eq!(
        y.compile(),
        vec![("key".to_string(), "value".to_string())]
    );
}

#[test]
fn later_insert_wins_by_position() {
    let env = Environment::inherit().insert("key", "value").insert("key", "vv");
    let compiled = env.compile();
    assert_eq!(compiled.len(), 2);
    assert_eq!(compiled[1], ("key".to_string(), "vv".to_string()));
}

#[test]
fn stdin_payloads_keep_their_order() {
    let a = Assert::command(&["cat"]).stdin(b"4").stdin(b"2");
    assert_eq!(a.stdin_contents, vec![b"4".to_vec(), b"2".to_vec()]);
}

#[test]
fn clone_keeps_variables_independent() {
    let y = Environment::empty();
    assert_eq!(
        y.clone().insert("key", "value").compile(),
        vec![("key".to_string(), "value".to_string())]
    );
    assert_eq!(y.compile(), vec![]);
}

#[test]
fn negative_exit_code_renders_with_sign() {
    let a = Assert::command(&["prog"]).fails_with(-2);
    let err = expect_err(a.verify_captured(&captured(Some(5), "", "")));
    let message = err.render_chain();
    assert!(message.contains("expected=Some(-2)"));
    assert!(message.contains("got=Some(5)"));
}

#[test]
fn spawn_error_renders_reason() {
    let err = AssertionError::new(vec!["prog".to_string()])
        .chain(AssertCause::Spawn(SpawnError::new("No such file".to_string())));
    let message = err.render_chain();
    assert!(message.starts_with("Assertion failed for `prog`"));
    assert!(message.contains("Spawn failed: No such file"));
}
