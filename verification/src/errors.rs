//! The layered failure model: a failed assertion records which command ran,
//! which check failed, and — for an output check — which stream and which
//! predicate, down to the lowest-level mismatch.

use vstd::prelude::*;
use vstd::string::*;
use crate::output::OutputError;
use crate::text::{dec_int_rep, i32_to_string, join_sep, lossy_decode, decode_lossy};

verus! {

/// The decimal rendering of an optional exit code.
pub open spec fn opt_i32_rep(v: Option<i32>) -> Seq<char> {
    match v {
        Some(c) => "Some("@ + dec_int_rep(c as int) + ")"@,
        None => "None"@,
    }
}

/// Render an optional exit code.
pub fn opt_i32_to_string(v: Option<i32>) -> (r: String)
    ensures
        r@ == opt_i32_rep(v),
{
    match v {
        Some(c) => {
            let mut out: String = String::new();
            out.append("Some(");
            let rep = i32_to_string(c);
            out.append(rep.as_str());
            out.append(")");
            out
        },
        None => {
            let out = String::new();
            let r = "None".to_owned();
            r
        },
    }
}

/// The exit status did not match the expectation: the command succeeded
/// where failure was expected, or failed where success was. Carries both
/// captured streams for diagnosis.
pub struct StatusError {
    pub unexpected: bool,
    pub stdout: Vec<u8>,
    pub stderr: Vec<u8>,
}

impl StatusError {
    pub fn new(unexpected: bool, stdout: Vec<u8>, stderr: Vec<u8>) -> (r: Self)
        ensures
            r.unexpected == unexpected,
            r.stdout == stdout,
            r.stderr == stderr,
    {
        Self { unexpected, stdout, stderr }
    }

    /// The message this failure renders to.
    pub open spec fn message_spec(self) -> Seq<char> {
        "Unexpected return status: "@ + (if self.unexpected {
            "success"@
        } else {
            "failure"@
        }) + "\nstdout=```"@ + lossy_decode(self.stdout@) + "```\nstderr=```"@ + lossy_decode(
            self.stderr@,
        ) + "```"@
    }

    /// Render the failure as its message.
    pub fn render(&self) -> (r: String)
        ensures
            r@ == self.message_spec(),
    {
        let mut out: String = String::new();
        out.append("Unexpected return status: ");
        if self.unexpected {
            out.append("success");
        } else {
            out.append("failure");
        }
        out.append("\nstdout=```");
        let stdout_text = decode_lossy(self.stdout.as_slice());
        out.append(stdout_text.as_str());
        out.append("```\nstderr=```");
        let stderr_text = decode_lossy(self.stderr.as_slice());
        out.append(stderr_text.as_str());
        out.append("```");
        out
    }
}

/// The exit code did not match the expectation. Carries the expected code,
/// the actual code, and both captured streams.
pub struct ExitCodeError {
    pub expected: Option<i32>,
    pub got: Option<i32>,
    pub stdout: Vec<u8>,
    pub stderr: Vec<u8>,
}

impl ExitCodeError {
    pub fn new(expected: Option<i32>, got: Option<i32>, stdout: Vec<u8>, stderr: Vec<u8>) -> (r:
        Self)
        ensures
            r.expected == expected,
            r.got == got,
            r.stdout == stdout,
            r.stderr == stderr,
    {
        Self { expected, got, stdout, stderr }
    }

    /// The message this failure renders to.
    pub open spec fn message_spec(self) -> Seq<char> {
        "expected="@ + opt_i32_rep(self.expected) + "\ngot="@ + opt_i32_rep(self.got)
            + "\nstdout=```"@ + lossy_decode(self.stdout@) + "```\nstderr=```"@ + lossy_decode(
            self.stderr@,
        ) + "```"@
    }

    /// Render the failure as its message.
    pub fn render(&self) -> (r: String)
        ensures
            r@ == self.message_spec(),
    {
        let mut out: String = String::new();
        out.append("expected=");
        let expected_rep = opt_i32_to_string(self.expected);
        out.append(expected_rep.as_str());
        out.append("\ngot=");
        let got_rep = opt_i32_to_string(self.got);
        out.append(got_rep.as_str());
        out.append("\nstdout=```");
        let stdout_text = decode_lossy(self.stdout.as_slice());
        out.append(stdout_text.as_str());
        out.append("```\nstderr=```");
        let stderr_text = decode_lossy(self.stderr.as_slice());
        out.append(stderr_text.as_str());
        out.append("```");
        out
    }
}

/// The process could not be started at all: a fatal error distinct from an
/// assertion failure, with the reason reported by the operating system.
pub struct SpawnError {
    pub reason: String,
}

impl SpawnError {
    pub fn new(reason: String) -> (r: Self)
        ensures
            r.reason == reason,
    {
        Self { reason }
    }

    /// The message this failure renders to.
    pub open spec fn message_spec(self) -> Seq<char> {
        "Spawn failed: "@ + self.reason@
    }

    /// Render the failure as its message.
    pub fn render(&self) -> (r: String)
        ensures
            r@ == self.message_spec(),
    {
        let mut out: String = String::new();
        out.append("Spawn failed: ");
        out.append(self.reason.as_str());
        out
    }
}

/// The check that failed, one level below the assertion itself.
pub enum AssertCause {
    Spawn(SpawnError),
    Status(StatusError),
    ExitCode(ExitCodeError),
    Output(OutputError),
}

impl AssertCause {
    /// The message of this level of the failure chain.
    pub open spec fn message_spec(self) -> Seq<char> {
        match self {
            AssertCause::Spawn(e) => e.message_spec(),
            AssertCause::Status(e) => e.message_spec(),
            AssertCause::ExitCode(e) => e.message_spec(),
            AssertCause::Output(e) => e.message_spec(),
        }
    }

    /// Render this level of the failure chain.
    pub fn render(&self) -> (r: String)
        ensures
            r@ == self.message_spec(),
    {
        match self {
            AssertCause::Spawn(e) => e.render(),
            AssertCause::Status(e) => e.render(),
            AssertCause::ExitCode(e) => e.render(),
            AssertCause::Output(e) => e.render(),
        }
    }
}

/// The view of a command line: the views of its words.
pub open spec fn cmd_view(cmd: Seq<String>) -> Seq<Seq<char>> {
    cmd.map_values(|s: String| s@)
}

proof fn lemma_join_sep_push(ls: Seq<Seq<char>>, l: Seq<char>, sep: char)
    ensures
        ls.len() == 0 ==> join_sep(ls.push(l), sep) == l,
        ls.len() > 0 ==> join_sep(ls.push(l), sep) == join_sep(ls, sep) + seq![sep] + l,
    decreases ls.len(),
{
    if ls.len() == 0 {
        assert(join_sep(ls.push(l), sep) == ls.push(l)[0]);
        assert(ls.push(l)[0] == l);
    } else if ls.len() == 1 {
        assert(ls.push(l).drop_first() =~= seq![l]);
        assert(join_sep(seq![l], sep) == l);
        assert(join_sep(ls.push(l), sep) =~= join_sep(ls, sep) + seq![sep] + l);
    } else {
        assert(ls.push(l).drop_first() =~= ls.drop_first().push(l));
        lemma_join_sep_push(ls.drop_first(), l, sep);
        assert(join_sep(ls, sep) == ls[0] + seq![sep] + join_sep(ls.drop_first(), sep));
        assert(join_sep(ls.push(l), sep) =~= join_sep(ls, sep) + seq![sep] + l);
    }
}

/// Render a command line as its words joined by single spaces.
pub fn format_cmd(cmd: &Vec<String>) -> (r: String)
    ensures
        r@ == join_sep(cmd_view(cmd@), ' '),
{
    let mut out: String = String::new();
    let n = cmd.len();
    let mut i: usize = 0;
    proof {
        assert(cmd@.subrange(0, 0).map_values(|s: String| s@) =~= Seq::<Seq<char>>::empty());
    }
    while i < n
        invariant
            n == cmd@.len(),
            i <= n,
            out@ == join_sep(cmd_view(cmd@.subrange(0, i as int)), ' '),
        decreases n - i,
    {
        if i > 0 {
            proof {
                reveal_strlit(" ");
            }
            out.append(" ");
        }
        out.append(cmd[i].as_str());
        proof {
            reveal_strlit(" ");
            assert(" "@ =~= seq![' ']);
            let pre = cmd_view(cmd@.subrange(0, i as int));
            lemma_join_sep_push(pre, cmd@[i as int]@, ' ');
            assert(pre.push(cmd@[i as int]@) =~= cmd_view(cmd@.subrange(0, i + 1 as int)));
        }
        i += 1;
    }
    proof {
        assert(cmd@.subrange(0, n as int) =~= cmd@);
    }
    out
}

/// The failure of one executed assertion: the command that ran, and the
/// check that failed beneath it.
pub struct AssertionError {
    pub cmd: Vec<String>,
    pub cause: Option<AssertCause>,
}

impl AssertionError {
    /// A failure for the given command line, with no cause attached yet.
    pub fn new(cmd: Vec<String>) -> (r: Self)
        ensures
            r.cmd == cmd,
            r.cause is None,
    {
        Self { cmd, cause: None }
    }

    /// Attach the check that failed.
    pub fn chain(self, cause: AssertCause) -> (r: Self)
        ensures
            r.cmd == self.cmd,
            r.cause == Some(cause),
    {
        Self { cmd: self.cmd, cause: Some(cause) }
    }

    /// The message of the outermost level of the failure chain.
    pub open spec fn message_spec(self) -> Seq<char> {
        "Assertion failed for `"@ + join_sep(cmd_view(self.cmd@), ' ') + "`"@
    }

    /// Render the outermost level of the failure chain.
    pub fn render(&self) -> (r: String)
        ensures
            r@ == self.message_spec(),
    {
        let mut out: String = String::new();
        out.append("Assertion failed for `");
        let cmd_text = format_cmd(&self.cmd);
        out.append(cmd_text.as_str());
        out.append("`");
        out
    }

    /// The full failure chain, outermost cause first, each deeper cause on
    /// its own line.
    pub open spec fn chain_spec(self) -> Seq<char> {
        self.message_spec() + match self.cause {
            None => Seq::<char>::empty(),
            Some(c) => "\nwith: "@ + c.message_spec() + match c {
                AssertCause::Output(o) => match o.cause {
                    Some(f) => "\nwith: "@ + f.message_spec(),
                    None => Seq::<char>::empty(),
                },
                _ => Seq::<char>::empty(),
            },
        }
    }

    /// Render the full failure chain, from the command line at the top down
    /// to the innermost mismatch.
    pub fn render_chain(&self) -> (r: String)
        ensures
            r@ == self.chain_spec(),
    {
        let mut out = self.render();
        match &self.cause {
            None => {},
            Some(c) => {
                out.append("\nwith: ");
                let cause_text = c.render();
                out.append(cause_text.as_str());
                match c {
                    AssertCause::Output(o) => {
                        match &o.cause {
                            Some(f) => {
                                out.append("\nwith: ");
                                let failure_text = f.render();
                                out.append(failure_text.as_str());
                            },
                            None => {},
                        }
                    },
                    _ => {},
                }
            },
        }
        out
    }
}

} // verus!
