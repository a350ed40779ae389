//! Assertions about the behaviour of an external command-line program: its
//! exit status and the textual or binary content of its standard output and
//! standard error streams.
//!
//! An [`Assert`] is built fluently — the command, its environment, optional
//! stdin payloads, the expected exit status or code, and any number of
//! predicates over either stream — and is then judged, exactly once, against
//! the captured result of running the command. Every mismatch is reported as
//! a layered error naming the command, the check, and — for an output check
//! — the stream, the predicate, and the lowest-level detail, down to a
//! colourised line diff for a failed exact match.

pub mod assertion;
pub mod diff;
pub mod errors;
pub mod output;
pub mod parse_cmd;
pub mod text;

pub use assertion::Assert;
pub use assertion::Environment;
pub use assertion::OutputAssertionBuilder;
pub use output::CapturedResult;
pub use output::Content;
pub use output::Output;
pub use output::OutputKind;
pub use output::TextPredicate;
pub use parse_cmd::flatten_escaped_string;
pub use parse_cmd::ToCmd;
pub use text::find_subsequence;

