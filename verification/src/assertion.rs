//! The assertion itself: the expectation set built by the fluent calls, the
//! environment policy handed to the execution driver, and the orchestrator
//! that judges one captured result against every expectation.

use vstd::prelude::*;
use vstd::string::*;
use crate::errors::{AssertCause, AssertionError, ExitCodeError, StatusError};
use crate::output::{
    CapturedResult, Content, Output, OutputKind, OutputPredicate, TextPredicate,
};

verus! {

/// The environment the child process will see: either the parent's
/// environment or an empty one, plus explicit key/value pairs applied on top
/// in order, so that a later pair for the same key wins.
pub struct Environment {
    pub inherit: bool,
    pub vars: Vec<(String, String)>,
}

/// A copy of a list of environment pairs.
pub(crate) fn clone_pairs(vars: &Vec<(String, String)>) -> (r: Vec<(String, String)>)
    ensures
        r@ == vars@,
{
    let mut out: Vec<(String, String)> = Vec::new();
    let mut i: usize = 0;
    while i < vars.len()
        invariant
            i <= vars@.len(),
            out@ == vars@.subrange(0, i as int),
        decreases vars@.len() - i,
    {
        let pair = (vars[i].0.clone(), vars[i].1.clone());
        assert(pair == vars@[i as int]);
        out.push(pair);
        assert(out@ =~= vars@.subrange(0, i + 1 as int));
        i += 1;
    }
    assert(out@ =~= vars@);
    out
}

/// A copy of a byte vector.
pub(crate) fn clone_bytes(v: &Vec<u8>) -> (r: Vec<u8>)
    ensures
        r@ == v@,
{
    crate::output::slice_to_vec_u8(v.as_slice())
}

impl Clone for Environment {
    fn clone(&self) -> (r: Self)
        ensures
            r.inherit == self.inherit,
            r.vars@ == self.vars@,
    {
        Environment { inherit: self.inherit, vars: clone_pairs(&self.vars) }
    }
}

impl Environment {
    /// Start from the parent process's environment.
    pub fn inherit() -> (r: Self)
        ensures
            r.inherit == true,
            r.vars@.len() == 0,
    {
        Environment { inherit: true, vars: Vec::new() }
    }

    /// Start from an empty environment.
    pub fn empty() -> (r: Self)
        ensures
            r.inherit == false,
            r.vars@.len() == 0,
    {
        Environment { inherit: false, vars: Vec::new() }
    }

    /// Add one variable; a later pair for the same key wins over an earlier
    /// one when the environment is applied.
    pub fn insert(self, key: &str, value: &str) -> (r: Self)
        ensures
            r.inherit == self.inherit,
            r.vars@.len() == self.vars@.len() + 1,
            r.vars@.drop_last() == self.vars@,
            r.vars@.last().0@ == key@,
            r.vars@.last().1@ == value@,
    {
        let mut vars = self.vars;
        vars.push((key.to_owned(), value.to_owned()));
        proof {
            assert(vars@.drop_last() =~= vars@.subrange(0, vars@.len() - 1));
        }
        Environment { inherit: self.inherit, vars }
    }

    /// The explicit pairs, in insertion order.
    pub fn compile(&self) -> (r: Vec<(String, String)>)
        ensures
            r@ == self.vars@,
    {
        clone_pairs(&self.vars)
    }
}

/// The full expectation set for one command: what to run, what to feed it,
/// and what must hold of its exit status and streams. Built by the fluent
/// calls and consumed exactly once by execution.
pub struct Assert {
    pub cmd: Vec<String>,
    pub env: Environment,
    pub current_dir: Option<String>,
    pub expect_success: Option<bool>,
    pub expect_exit_code: Option<i32>,
    pub expect_output: Vec<OutputPredicate>,
    pub stdin_contents: Vec<Vec<u8>>,
}

/// The fields of an assertion that the expectation-building calls leave
/// unchanged besides the output predicates.
pub open spec fn same_but_outputs(a: Assert, b: Assert) -> bool {
    &&& a.cmd == b.cmd
    &&& a.env == b.env
    &&& a.current_dir == b.current_dir
    &&& a.expect_success == b.expect_success
    &&& a.expect_exit_code == b.expect_exit_code
    &&& a.stdin_contents == b.stdin_contents
}

impl Default for Assert {
    /// An assertion that runs the crate's main binary through the build
    /// tool and expects successful execution.
    fn default() -> (r: Assert)
        ensures
            cmd_words(r.cmd@) =~= seq!["cargo"@, "run"@, "--quiet"@, "--"@],
            r.env.inherit == true,
            r.env.vars@.len() == 0,
            r.current_dir is None,
            r.expect_success == Some(true),
            r.expect_exit_code is None,
            r.expect_output@.len() == 0,
            r.stdin_contents@.len() == 0,
    {
        Assert::main_binary()
    }
}

impl Assert {
    /// Run the crate's main binary through the build tool. Expects success.
    pub fn main_binary() -> (r: Assert)
        ensures
            cmd_words(r.cmd@) =~= seq!["cargo"@, "run"@, "--quiet"@, "--"@],
            r.env.inherit == true,
            r.env.vars@.len() == 0,
            r.current_dir is None,
            r.expect_success == Some(true),
            r.expect_exit_code is None,
            r.expect_output@.len() == 0,
            r.stdin_contents@.len() == 0,
    {
        let mut cmd: Vec<String> = Vec::new();
        cmd.push("cargo".to_owned());
        cmd.push("run".to_owned());
        cmd.push("--quiet".to_owned());
        cmd.push("--".to_owned());
        proof {
            assert(cmd_words(cmd@) =~= seq!["cargo"@, "run"@, "--quiet"@, "--"@]);
        }
        Assert {
            cmd,
            env: Environment::inherit(),
            current_dir: None,
            expect_success: Some(true),
            expect_exit_code: None,
            expect_output: Vec::new(),
            stdin_contents: Vec::new(),
        }
    }

    /// Run a specific binary of the current crate. Expects success.
    pub fn cargo_binary(name: &str) -> (r: Assert)
        ensures
            cmd_words(r.cmd@) =~= seq!["cargo"@, "run"@, "--quiet"@, "--bin"@, name@, "--"@],
            r.env.inherit == true,
            r.env.vars@.len() == 0,
            r.current_dir is None,
            r.expect_success == Some(true),
            r.expect_exit_code is None,
            r.expect_output@.len() == 0,
            r.stdin_contents@.len() == 0,
    {
        let mut cmd: Vec<String> = Vec::new();
        cmd.push("cargo".to_owned());
        cmd.push("run".to_owned());
        cmd.push("--quiet".to_owned());
        cmd.push("--bin".to_owned());
        cmd.push(name.to_owned());
        cmd.push("--".to_owned());
        proof {
            assert(cmd_words(cmd@) =~= seq!["cargo"@, "run"@, "--quiet"@, "--bin"@, name@, "--"@]);
        }
        Assert {
            cmd,
            env: Environment::inherit(),
            current_dir: None,
            expect_success: Some(true),
            expect_exit_code: None,
            expect_output: Vec::new(),
            stdin_contents: Vec::new(),
        }
    }

    /// Run a specific example of the current crate. Expects success.
    pub fn example(name: &str) -> (r: Assert)
        ensures
            cmd_words(r.cmd@) =~= seq!["cargo"@, "run"@, "--quiet"@, "--example"@, name@, "--"@],
            r.env.inherit == true,
            r.env.vars@.len() == 0,
            r.current_dir is None,
            r.expect_success == Some(true),
            r.expect_exit_code is None,
            r.expect_output@.len() == 0,
            r.stdin_contents@.len() == 0,
    {
        let mut cmd: Vec<String> = Vec::new();
        cmd.push("cargo".to_owned());
        cmd.push("run".to_owned());
        cmd.push("--quiet".to_owned());
        cmd.push("--example".to_owned());
        cmd.push(name.to_owned());
        cmd.push("--".to_owned());
        proof {
            assert(cmd_words(cmd@) =~= seq![
                "cargo"@,
                "run"@,
                "--quiet"@,
                "--example"@,
                name@,
                "--"@,
            ]);
        }
        Assert {
            cmd,
            env: Environment::inherit(),
            current_dir: None,
            expect_success: Some(true),
            expect_exit_code: None,
            expect_output: Vec::new(),
            stdin_contents: Vec::new(),
        }
    }

    /// Run a custom command: the first word is the program, the rest are its
    /// arguments. Expects success.
    pub fn command(cmd: &[&str]) -> (r: Assert)
        ensures
            cmd_words(r.cmd@) == cmd@.map_values(|s: &str| s@),
            r.env.inherit == true,
            r.env.vars@.len() == 0,
            r.current_dir is None,
            r.expect_success == Some(true),
            r.expect_exit_code is None,
            r.expect_output@.len() == 0,
            r.stdin_contents@.len() == 0,
    {
        let mut words: Vec<String> = Vec::new();
        let mut i: usize = 0;
        while i < cmd.len()
            invariant
                i <= cmd@.len(),
                words@.len() == i,
                forall|k: int| 0 <= k < i ==> (#[trigger] words@[k])@ == cmd@[k]@,
            decreases cmd@.len() - i,
        {
            words.push(cmd[i].to_owned());
            i += 1;
        }
        proof {
            assert(cmd_words(words@) =~= cmd@.map_values(|s: &str| s@));
        }
        Assert {
            cmd: words,
            env: Environment::inherit(),
            current_dir: None,
            expect_success: Some(true),
            expect_exit_code: None,
            expect_output: Vec::new(),
            stdin_contents: Vec::new(),
        }
    }

    /// Add arguments to the command.
    pub fn with_args(self, args: &[&str]) -> (r: Assert)
        ensures
            cmd_words(r.cmd@) == cmd_words(self.cmd@) + args@.map_values(|s: &str| s@),
            r.env == self.env,
            r.current_dir == self.current_dir,
            r.expect_success == self.expect_success,
            r.expect_exit_code == self.expect_exit_code,
            r.expect_output == self.expect_output,
            r.stdin_contents == self.stdin_contents,
    {
        let mut cmd = self.cmd;
        let ghost base_cmd = cmd@;
        let ghost base_len = cmd@.len();
        let mut i: usize = 0;
        while i < args.len()
            invariant
                i <= args@.len(),
                cmd@.len() == base_len + i,
                forall|k: int| 0 <= k < base_len ==> (#[trigger] cmd@[k]) == base_cmd[k],
                forall|k: int|
                    base_len <= k < cmd@.len() ==> (#[trigger] cmd@[k])@ == args@[k - base_len]@,
            decreases args@.len() - i,
        {
            cmd.push(args[i].to_owned());
            i += 1;
        }
        proof {
            assert(cmd_words(cmd@) =~= cmd_words(base_cmd) + args@.map_values(|s: &str| s@));
        }
        Assert { cmd, ..self }
    }

    /// Add one stdin payload; payloads are written to the child in order.
    pub fn stdin(self, contents: &[u8]) -> (r: Assert)
        ensures
            r.stdin_contents@.len() == self.stdin_contents@.len() + 1,
            r.stdin_contents@.drop_last() == self.stdin_contents@,
            r.stdin_contents@.last()@ == contents@,
            r.cmd == self.cmd,
            r.env == self.env,
            r.current_dir == self.current_dir,
            r.expect_success == self.expect_success,
            r.expect_exit_code == self.expect_exit_code,
            r.expect_output == self.expect_output,
    {
        let mut stdin_contents = self.stdin_contents;
        stdin_contents.push(crate::output::slice_to_vec_u8(contents));
        proof {
            assert(stdin_contents@.drop_last() =~= stdin_contents@.subrange(
                0,
                stdin_contents@.len() - 1,
            ));
        }
        Assert { stdin_contents, ..self }
    }

    /// Set the working directory for the command.
    pub fn current_dir(self, dir: &str) -> (r: Assert)
        ensures
            r.current_dir matches Some(d) && d@ == dir@,
            r.cmd == self.cmd,
            r.env == self.env,
            r.expect_success == self.expect_success,
            r.expect_exit_code == self.expect_exit_code,
            r.expect_output == self.expect_output,
            r.stdin_contents == self.stdin_contents,
    {
        Assert { current_dir: Some(dir.to_owned()), ..self }
    }

    /// Set the environment the child will see.
    pub fn with_env(self, env: Environment) -> (r: Assert)
        ensures
            r.env == env,
            r.cmd == self.cmd,
            r.current_dir == self.current_dir,
            r.expect_success == self.expect_success,
            r.expect_exit_code == self.expect_exit_code,
            r.expect_output == self.expect_output,
            r.stdin_contents == self.stdin_contents,
    {
        Assert { env, ..self }
    }

    /// A small helper to make chains more readable; changes nothing.
    pub fn and(self) -> (r: Assert)
        ensures
            r == self,
    {
        self
    }

    /// Expect the command to exit successfully.
    pub fn succeeds(self) -> (r: Assert)
        ensures
            r.expect_success == Some(true),
            r.expect_exit_code is None,
            r.cmd == self.cmd,
            r.env == self.env,
            r.current_dir == self.current_dir,
            r.expect_output == self.expect_output,
            r.stdin_contents == self.stdin_contents,
    {
        Assert { expect_success: Some(true), expect_exit_code: None, ..self }
    }

    /// Expect the command to run and fail.
    pub fn fails(self) -> (r: Assert)
        ensures
            r.expect_success == Some(false),
            r.expect_exit_code == self.expect_exit_code,
            r.cmd == self.cmd,
            r.env == self.env,
            r.current_dir == self.current_dir,
            r.expect_output == self.expect_output,
            r.stdin_contents == self.stdin_contents,
    {
        Assert { expect_success: Some(false), ..self }
    }

    /// Expect the command to fail with a specific exit code.
    pub fn fails_with(self, expect_exit_code: i32) -> (r: Assert)
        ensures
            r.expect_success == Some(false),
            r.expect_exit_code == Some(expect_exit_code),
            r.cmd == self.cmd,
            r.env == self.env,
            r.current_dir == self.current_dir,
            r.expect_output == self.expect_output,
            r.stdin_contents == self.stdin_contents,
    {
        Assert {
            expect_success: Some(false),
            expect_exit_code: Some(expect_exit_code),
            ..self
        }
    }

    /// Do not check the exit status at all; removes any expectation set so
    /// far, including a specific exit code.
    pub fn ignore_status(self) -> (r: Assert)
        ensures
            r.expect_success is None,
            r.expect_exit_code is None,
            r.cmd == self.cmd,
            r.env == self.env,
            r.current_dir == self.current_dir,
            r.expect_output == self.expect_output,
            r.stdin_contents == self.stdin_contents,
    {
        Assert { expect_success: None, expect_exit_code: None, ..self }
    }

    /// Start an expectation over the captured standard output.
    pub fn stdout(self) -> (r: OutputAssertionBuilder)
        ensures
            r.assertion == self,
            r.kind is StdOut,
    {
        OutputAssertionBuilder { assertion: self, kind: OutputKind::StdOut }
    }

    /// Start an expectation over the captured standard error.
    pub fn stderr(self) -> (r: OutputAssertionBuilder)
        ensures
            r.assertion == self,
            r.kind is StdErr,
    {
        OutputAssertionBuilder { assertion: self, kind: OutputKind::StdErr }
    }

    /// Whether the captured exit status satisfies the success expectation.
    pub open spec fn status_ok(self, got: CapturedResult) -> bool {
        match self.expect_success {
            None => true,
            Some(e) => e == got.success_spec(),
        }
    }

    /// Whether the captured exit code satisfies the exit-code expectation.
    pub open spec fn code_ok(self, got: CapturedResult) -> bool {
        match self.expect_exit_code {
            None => true,
            Some(c) => got.code == Some(c),
        }
    }

    /// Whether every output predicate's verdict is a function of the
    /// captured result alone.
    pub open spec fn preds_decided(self) -> bool {
        forall|i: int|
            0 <= i < self.expect_output@.len() ==> (#[trigger] self.expect_output@[i]).decided()
    }

    /// Whether every decided output predicate passes on the captured result.
    pub open spec fn all_preds_pass(self, got: CapturedResult) -> bool {
        forall|i: int|
            0 <= i < self.expect_output@.len() ==> ((#[trigger] self.expect_output@[i]).decided()
                ==> self.expect_output@[i].passes(got))
    }

    /// Whether an assertion error reports the first output predicate that
    /// failed: every decided predicate before it passed, the failing one —
    /// if decided — failed, and the error carries its stream and failure.
    pub open spec fn reports_first_failure(
        self,
        got: CapturedResult,
        e: AssertionError,
    ) -> bool {
        exists|i: int|
            {
                &&& 0 <= i < self.expect_output@.len()
                &&& e.cause matches Some(AssertCause::Output(o))
                    && (#[trigger] self.expect_output@[i]).failure_matches(got, o)
                &&& forall|j: int|
                    0 <= j < i ==> ((#[trigger] self.expect_output@[j]).decided()
                        ==> self.expect_output@[j].passes(got))
                &&& (self.expect_output@[i].decided() ==> !self.expect_output@[i].passes(got))
            }
    }

    /// Judge one captured result against the whole expectation set.
    ///
    /// The checks run in order — exit status, exit code, then each output
    /// predicate in declaration order — and the first mismatch is reported;
    /// predicates after the first failing one are not evaluated.
    pub fn verify_captured(self, got: &CapturedResult) -> (r: Result<(), AssertionError>)
        ensures
            r matches Err(e) ==> e.cmd == self.cmd,
            !self.status_ok(*got) ==> (r matches Err(e) && (e.cause matches Some(
                AssertCause::Status(s),
            ) && s.unexpected == got.success_spec() && s.stdout@ == got.stdout@ && s.stderr@
                == got.stderr@)),
            self.status_ok(*got) && !self.code_ok(*got) ==> (r matches Err(e) && (e.cause matches
            Some(AssertCause::ExitCode(c)) && c.expected == self.expect_exit_code && c.got
                == got.code && c.stdout@ == got.stdout@ && c.stderr@ == got.stderr@)),
            self.status_ok(*got) && self.code_ok(*got) ==> (r matches Err(e)
                ==> self.reports_first_failure(*got, e)),
            self.status_ok(*got) && self.code_ok(*got) && self.preds_decided() ==> (r is Ok
                <==> self.all_preds_pass(*got)),
            r is Ok ==> self.status_ok(*got) && self.code_ok(*got) && self.all_preds_pass(*got),
    {
        if let Some(expect_success) = self.expect_success {
            let actual_success = got.success();
            if expect_success != actual_success {
                return Err(
                    AssertionError::new(self.cmd).chain(
                        AssertCause::Status(
                            StatusError::new(
                                actual_success,
                                clone_bytes(&got.stdout),
                                clone_bytes(&got.stderr),
                            ),
                        ),
                    ),
                );
            }
        }
        if let Some(expect_code) = self.expect_exit_code {
            let code_matches = match got.code {
                Some(c) => c == expect_code,
                None => false,
            };
            if !code_matches {
                return Err(
                    AssertionError::new(self.cmd).chain(
                        AssertCause::ExitCode(
                            ExitCodeError::new(
                                Some(expect_code),
                                got.code,
                                clone_bytes(&got.stdout),
                                clone_bytes(&got.stderr),
                            ),
                        ),
                    ),
                );
            }
        }
        let n = self.expect_output.len();
        let mut i: usize = 0;
        while i < n
            invariant
                n == self.expect_output@.len(),
                i <= n,
                self.status_ok(*got),
                self.code_ok(*got),
                forall|j: int|
                    0 <= j < i ==> ((#[trigger] self.expect_output@[j]).decided()
                        ==> self.expect_output@[j].passes(*got)),
            decreases n - i,
        {
            match self.expect_output[i].verify(got) {
                Ok(()) => {},
                Err(o) => {
                    let e = AssertionError::new(self.cmd).chain(AssertCause::Output(o));
                    proof {
                        assert(0 <= i < self.expect_output@.len()
                            && (e.cause matches Some(AssertCause::Output(oo))
                                && self.expect_output@[i as int].failure_matches(*got, oo))
                            && (forall|j: int|
                                0 <= j < i ==> ((#[trigger] self.expect_output@[j]).decided()
                                    ==> self.expect_output@[j].passes(*got)))
                            && (self.expect_output@[i as int].decided()
                                ==> !self.expect_output@[i as int].passes(*got)));
                    }
                    return Err(e);
                },
            }
            i += 1;
        }
        Ok(())
    }
}

/// The views of a command line's words.
pub open spec fn cmd_words(cmd: Seq<String>) -> Seq<Seq<char>> {
    cmd.map_values(|s: String| s@)
}

/// A stream selection waiting for its content expectation: the intermediate
/// value of the fluent `stdout()` / `stderr()` calls.
pub struct OutputAssertionBuilder {
    pub assertion: Assert,
    pub kind: OutputKind,
}

impl OutputAssertionBuilder {
    /// Expect the selected stream to contain the given content.
    pub fn contains(self, output: Content) -> (r: Assert)
        ensures
            same_but_outputs(r, self.assertion),
            r.expect_output@.len() == self.assertion.expect_output@.len() + 1,
            r.expect_output@.drop_last() == self.assertion.expect_output@,
            r.expect_output@.last().kind == self.kind,
            r.expect_output@.last().pred.pred == (crate::output::ContentPredicate::Contains(
                crate::output::ContainsPredicate { expect: output, expected_result: true },
            )),
    {
        let pred = OutputPredicate::new(self.kind, Output::contains(output));
        let mut assertion = self.assertion;
        assertion.expect_output.push(pred);
        proof {
            assert(assertion.expect_output@.drop_last() =~= assertion.expect_output@.subrange(
                0,
                assertion.expect_output@.len() - 1,
            ));
        }
        assertion
    }

    /// Expect the selected stream to be exactly the given content.
    pub fn is(self, output: Content) -> (r: Assert)
        ensures
            same_but_outputs(r, self.assertion),
            r.expect_output@.len() == self.assertion.expect_output@.len() + 1,
            r.expect_output@.drop_last() == self.assertion.expect_output@,
            r.expect_output@.last().kind == self.kind,
            r.expect_output@.last().pred.pred == (crate::output::ContentPredicate::Is(
                crate::output::IsPredicate { expect: output, expected_result: true },
            )),
    {
        let pred = OutputPredicate::new(self.kind, Output::is(output));
        let mut assertion = self.assertion;
        assertion.expect_output.push(pred);
        proof {
            assert(assertion.expect_output@.drop_last() =~= assertion.expect_output@.subrange(
                0,
                assertion.expect_output@.len() - 1,
            ));
        }
        assertion
    }

    /// Expect the selected stream to not contain the given content.
    pub fn doesnt_contain(self, output: Content) -> (r: Assert)
        ensures
            same_but_outputs(r, self.assertion),
            r.expect_output@.len() == self.assertion.expect_output@.len() + 1,
            r.expect_output@.drop_last() == self.assertion.expect_output@,
            r.expect_output@.last().kind == self.kind,
            r.expect_output@.last().pred.pred == (crate::output::ContentPredicate::Contains(
                crate::output::ContainsPredicate { expect: output, expected_result: false },
            )),
    {
        let pred = OutputPredicate::new(self.kind, Output::doesnt_contain(output));
        let mut assertion = self.assertion;
        assertion.expect_output.push(pred);
        proof {
            assert(assertion.expect_output@.drop_last() =~= assertion.expect_output@.subrange(
                0,
                assertion.expect_output@.len() - 1,
            ));
        }
        assertion
    }

    /// Expect the selected stream to not be exactly the given content.
    pub fn isnt(self, output: Content) -> (r: Assert)
        ensures
            same_but_outputs(r, self.assertion),
            r.expect_output@.len() == self.assertion.expect_output@.len() + 1,
            r.expect_output@.drop_last() == self.assertion.expect_output@,
            r.expect_output@.last().kind == self.kind,
            r.expect_output@.last().pred.pred == (crate::output::ContentPredicate::Is(
                crate::output::IsPredicate { expect: output, expected_result: false },
            )),
    {
        let pred = OutputPredicate::new(self.kind, Output::isnt(output));
        let mut assertion = self.assertion;
        assertion.expect_output.push(pred);
        proof {
            assert(assertion.expect_output@.drop_last() =~= assertion.expect_output@.subrange(
                0,
                assertion.expect_output@.len() - 1,
            ));
        }
        assertion
    }

    /// Expect the selected stream to satisfy a user-supplied check.
    pub fn satisfies(self, pred: Box<dyn TextPredicate>, msg: &str) -> (r: Assert)
        ensures
            same_but_outputs(r, self.assertion),
            r.expect_output@.len() == self.assertion.expect_output@.len() + 1,
            r.expect_output@.drop_last() == self.assertion.expect_output@,
            r.expect_output@.last().kind == self.kind,
            r.expect_output@.last().pred.pred matches crate::output::ContentPredicate::Fn(p)
                && p.msg@ == msg@,
    {
        let pred = OutputPredicate::new(self.kind, Output::satisfies(pred, msg));
        let mut assertion = self.assertion;
        assertion.expect_output.push(pred);
        proof {
            assert(assertion.expect_output@.drop_last() =~= assertion.expect_output@.subrange(
                0,
                assertion.expect_output@.len() - 1,
            ));
        }
        assertion
    }

    /// Expect the pattern to match somewhere in the selected stream.
    pub fn matches(self, pattern: &str) -> (r: Assert)
        ensures
            same_but_outputs(r, self.assertion),
            r.expect_output@.len() == self.assertion.expect_output@.len() + 1,
            r.expect_output@.drop_last() == self.assertion.expect_output@,
            r.expect_output@.last().kind == self.kind,
            r.expect_output@.last().pred.pred matches crate::output::ContentPredicate::MatchesRegex(
                p,
            ) && p.pattern@ == pattern@ && p.expected_count is None,
    {
        let pred = OutputPredicate::new(self.kind, Output::matches(pattern));
        let mut assertion = self.assertion;
        assertion.expect_output.push(pred);
        proof {
            assert(assertion.expect_output@.drop_last() =~= assertion.expect_output@.subrange(
                0,
                assertion.expect_output@.len() - 1,
            ));
        }
        assertion
    }

    /// Expect the pattern to match exactly `count` times in the selected
    /// stream.
    pub fn matches_count(self, pattern: &str, count: u64) -> (r: Assert)
        ensures
            same_but_outputs(r, self.assertion),
            r.expect_output@.len() == self.assertion.expect_output@.len() + 1,
            r.expect_output@.drop_last() == self.assertion.expect_output@,
            r.expect_output@.last().kind == self.kind,
            r.expect_output@.last().pred.pred matches crate::output::ContentPredicate::MatchesRegex(
                p,
            ) && p.pattern@ == pattern@ && p.expected_count == Some(count),
    {
        let pred = OutputPredicate::new(self.kind, Output::matches_count(pattern, count));
        let mut assertion = self.assertion;
        assertion.expect_output.push(pred);
        proof {
            assert(assertion.expect_output@.drop_last() =~= assertion.expect_output@.subrange(
                0,
                assertion.expect_output@.len() - 1,
            ));
        }
        assertion
    }
}

} // verus!
