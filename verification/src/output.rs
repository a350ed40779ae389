//! The content predicate model: expectations over one captured output
//! stream, their pass/fail semantics, and the typed failures they produce.

use vstd::prelude::*;
use vstd::string::*;
use vstd::utf8::{decode_utf8, valid_utf8};
use crate::diff::{all_same, diff_texts, render};
use crate::text::{
    bytes_rep, bytes_to_string, dec_rep, decode_lossy, lossy_decode, seq_contains, str_contains,
    find_subsequence, trim_spec, trim_str, u64_to_string,
};

verus! {

/// The value a predicate compares against: either text or raw bytes. A text
/// expectation forces the captured bytes through lossy UTF-8 decoding; a
/// byte expectation compares the raw bytes.
pub enum Content {
    Str(String),
    Bytes(Vec<u8>),
}

impl Content {
    /// A text expectation.
    pub fn text(data: &str) -> (r: Content)
        ensures
            r matches Content::Str(s) && s@ == data@,
    {
        Content::Str(data.to_owned())
    }

    /// A raw byte expectation.
    pub fn bytes(data: &[u8]) -> (r: Content)
        ensures
            r matches Content::Bytes(b) && b@ == data@,
    {
        let mut v: Vec<u8> = Vec::new();
        let mut i: usize = 0;
        while i < data.len()
            invariant
                i <= data@.len(),
                v@ == data@.subrange(0, i as int),
            decreases data@.len() - i,
        {
            v.push(data[i]);
            assert(v@ =~= data@.subrange(0, i + 1 as int));
            i += 1;
        }
        assert(v@ =~= data@);
        Content::Bytes(v)
    }
}

/// Whether a compiled pattern exists for this pattern text: what
/// `regex::Regex::new` accepts, a function of the pattern alone.
pub uninterp spec fn regex_valid(pattern: Seq<char>) -> bool;

/// The number of successive non-overlapping matches of a valid pattern in a
/// text, a function of pattern and text alone.
pub uninterp spec fn regex_count(pattern: Seq<char>, text: Seq<char>) -> nat;

/// Relies on `regex::Regex::new`, which returns a compiled pattern exactly
/// when the pattern text is one the crate accepts, and on
/// `Regex::find_iter`, which yields the successive non-overlapping matches
/// of the pattern in the haystack.
#[verifier::external_body]
fn count_regex_matches(pattern: &str, text: &str) -> (r: Option<u64>)
    ensures
        r is Some <==> regex_valid(pattern@),
        r matches Some(c) ==> c as nat == regex_count(pattern@, text@),
{
    match regex::Regex::new(pattern) {
        Ok(re) => Some(re.find_iter(text).count() as u64),
        Err(_) => None,
    }
}

/// A boolean check over decoded output text, supplied by the user of the
/// library as an escape hatch beside the built-in predicate kinds.
pub trait TextPredicate {
    fn check(&self, text: &str) -> bool;
}

// ------------------------------------------------------------------
// Typed failures, one per way a predicate can fail.
// ------------------------------------------------------------------

/// A text needle that was expected in, but absent from, the haystack.
pub struct StrDoesntContain {
    pub needle: String,
    pub haystack: String,
}

/// A byte needle that was expected in, but absent from, the haystack.
pub struct BytesDoesntContain {
    pub needle: Vec<u8>,
    pub haystack: Vec<u8>,
}

/// A text needle that was expected to be absent, but occurred.
pub struct StrContains {
    pub needle: String,
    pub haystack: String,
}

/// A byte needle that was expected to be absent, but occurred.
pub struct BytesContains {
    pub needle: Vec<u8>,
    pub haystack: Vec<u8>,
}

/// Text output that should have matched the expected text, with the rendered
/// line diff between the two.
pub struct StrDoesntMatch {
    pub expected: String,
    pub got: String,
    pub diff: String,
}

/// Byte output that should have equalled the expected bytes.
pub struct BytesDoesntMatch {
    pub expected: Vec<u8>,
    pub got: Vec<u8>,
}

/// Text output that matched although it should not have.
pub struct StrMatches {
    pub output: String,
}

/// Byte output that equalled the expected bytes although it should not have.
pub struct BytesMatches {
    pub output: Vec<u8>,
}

/// A user-supplied predicate that returned false.
pub struct PredicateFailed {
    pub msg: String,
    pub got: String,
}

/// A pattern whose number of matches differed from the expectation, or that
/// could not be compiled. `expected` of `None` asks for at least one match;
/// `observed` of `None` reports an invalid pattern.
pub struct RegexMismatch {
    pub pattern: String,
    pub expected: Option<u64>,
    pub observed: Option<u64>,
}

impl StrDoesntContain {
    pub fn new(needle: String, haystack: String) -> (r: Self)
        ensures
            r.needle == needle,
            r.haystack == haystack,
    {
        Self { needle, haystack }
    }
}

impl BytesDoesntContain {
    pub fn new(needle: Vec<u8>, haystack: Vec<u8>) -> (r: Self)
        ensures
            r.needle == needle,
            r.haystack == haystack,
    {
        Self { needle, haystack }
    }
}

impl StrContains {
    pub fn new(needle: String, haystack: String) -> (r: Self)
        ensures
            r.needle == needle,
            r.haystack == haystack,
    {
        Self { needle, haystack }
    }
}

impl BytesContains {
    pub fn new(needle: Vec<u8>, haystack: Vec<u8>) -> (r: Self)
        ensures
            r.needle == needle,
            r.haystack == haystack,
    {
        Self { needle, haystack }
    }
}

impl StrDoesntMatch {
    pub fn new(expected: String, got: String, diff: String) -> (r: Self)
        ensures
            r.expected == expected,
            r.got == got,
            r.diff == diff,
    {
        Self { expected, got, diff }
    }
}

impl BytesDoesntMatch {
    pub fn new(expected: Vec<u8>, got: Vec<u8>) -> (r: Self)
        ensures
            r.expected == expected,
            r.got == got,
    {
        Self { expected, got }
    }
}

impl StrMatches {
    pub fn new(output: String) -> (r: Self)
        ensures
            r.output == output,
    {
        Self { output }
    }
}

impl BytesMatches {
    pub fn new(output: Vec<u8>) -> (r: Self)
        ensures
            r.output == output,
    {
        Self { output }
    }
}

impl PredicateFailed {
    pub fn new(msg: String, got: String) -> (r: Self)
        ensures
            r.msg == msg,
            r.got == got,
    {
        Self { msg, got }
    }
}

impl RegexMismatch {
    pub fn new(pattern: String, expected: Option<u64>, observed: Option<u64>) -> (r: Self)
        ensures
            r.pattern == pattern,
            r.expected == expected,
            r.observed == observed,
    {
        Self { pattern, expected, observed }
    }
}

/// The lowest level of the failure chain: which content check failed, with
/// its context.
pub enum PredicateFailure {
    StrDoesntContain(StrDoesntContain),
    BytesDoesntContain(BytesDoesntContain),
    StrContains(StrContains),
    BytesContains(BytesContains),
    StrDoesntMatch(StrDoesntMatch),
    BytesDoesntMatch(BytesDoesntMatch),
    StrMatches(StrMatches),
    BytesMatches(BytesMatches),
    PredicateFailed(PredicateFailed),
    RegexMismatch(RegexMismatch),
}

// ------------------------------------------------------------------
// Pass/fail semantics, stated over the mathematical values.
// ------------------------------------------------------------------

/// Exact-match semantics over text: both sides are trimmed of leading and
/// trailing whitespace, then compared; the polarity flag inverts the result.
pub open spec fn is_str_passes(expect: Seq<char>, pol: bool, got_text: Seq<char>) -> bool {
    (trim_spec(expect) == trim_spec(got_text)) == pol
}

/// Exact-match semantics over bytes: compared without trimming; the polarity
/// flag inverts the result.
pub open spec fn is_bytes_passes(expect: Seq<u8>, pol: bool, got: Seq<u8>) -> bool {
    (expect == got) == pol
}

/// Containment semantics over text: no trimming on either side; the polarity
/// flag inverts the result.
pub open spec fn contains_str_passes(needle: Seq<char>, pol: bool, got_text: Seq<char>) -> bool {
    seq_contains(got_text, needle) == pol
}

/// Containment semantics over bytes: a contiguous subsequence; the polarity
/// flag inverts the result.
pub open spec fn contains_bytes_passes(needle: Seq<u8>, pol: bool, got: Seq<u8>) -> bool {
    seq_contains(got, needle) == pol
}

/// Pattern semantics: the pattern must be valid, and the number of
/// non-overlapping matches must equal the expected count exactly — or, with
/// no count given, be at least one.
pub open spec fn regex_passes(
    pattern: Seq<char>,
    expected_count: Option<u64>,
    got_text: Seq<char>,
) -> bool {
    &&& regex_valid(pattern)
    &&& match expected_count {
        Some(n) => regex_count(pattern, got_text) == n as nat,
        None => regex_count(pattern, got_text) > 0,
    }
}

// ------------------------------------------------------------------
// The predicate kinds.
// ------------------------------------------------------------------

/// The exact-match predicate: the captured content must (or, negated, must
/// not) equal the expected content.
pub struct IsPredicate {
    pub expect: Content,
    pub expected_result: bool,
}

impl IsPredicate {
    /// What this predicate says of a captured byte buffer.
    pub open spec fn passes(self, got: Seq<u8>) -> bool {
        match self.expect {
            Content::Str(s) => is_str_passes(s@, self.expected_result, lossy_decode(got)),
            Content::Bytes(b) => is_bytes_passes(b@, self.expected_result, got),
        }
    }

    /// The failure this predicate reports for a captured byte buffer.
    pub open spec fn failure_matches(self, got: Seq<u8>, f: PredicateFailure) -> bool {
        match self.expect {
            Content::Str(s) => if self.expected_result {
                f matches PredicateFailure::StrDoesntMatch(e) && e.expected@ == s@ && e.got@
                    == lossy_decode(got) && e.diff@.len() > 0
            } else {
                f matches PredicateFailure::StrMatches(e) && e.output@ == lossy_decode(got)
            },
            Content::Bytes(b) => if self.expected_result {
                f matches PredicateFailure::BytesDoesntMatch(e) && e.expected@ == b@ && e.got@
                    == got
            } else {
                f matches PredicateFailure::BytesMatches(e) && e.output@ == got
            },
        }
    }

    /// Check the exact-match expectation against trimmed text values.
    pub fn verify_str(&self, expect: &str, got: &str) -> (r: Result<(), PredicateFailure>)
        ensures
            r is Ok <==> is_str_passes(expect@, self.expected_result, got@),
            r matches Err(f) ==> if self.expected_result {
                f matches PredicateFailure::StrDoesntMatch(e) && e.expected@ == expect@ && e.got@
                    == got@ && e.diff@.len() > 0
            } else {
                f matches PredicateFailure::StrMatches(e) && e.output@ == got@
            },
    {
        let expect_trimmed = trim_str(expect);
        let got_trimmed = trim_str(got);
        let equal = expect_trimmed == got_trimmed;
        if equal != self.expected_result {
            if self.expected_result {
                let ops = diff_texts(expect_trimmed.as_str(), got_trimmed.as_str());
                proof {
                    if all_same(ops@) {
                        assert(false);
                    }
                }
                let nice_diff = render(&ops);
                Err(
                    PredicateFailure::StrDoesntMatch(
                        StrDoesntMatch::new(expect.to_owned(), got.to_owned(), nice_diff),
                    ),
                )
            } else {
                Err(PredicateFailure::StrMatches(StrMatches::new(got.to_owned())))
            }
        } else {
            Ok(())
        }
    }

    /// Check the exact-match expectation against raw bytes.
    pub fn verify_bytes(&self, expect: &[u8], got: &[u8]) -> (r: Result<(), PredicateFailure>)
        ensures
            r is Ok <==> is_bytes_passes(expect@, self.expected_result, got@),
            r matches Err(f) ==> if self.expected_result {
                f matches PredicateFailure::BytesDoesntMatch(e) && e.expected@ == expect@ && e.got@
                    == got@
            } else {
                f matches PredicateFailure::BytesMatches(e) && e.output@ == got@
            },
    {
        let equal = bytes_equal(expect, got);
        if equal != self.expected_result {
            if self.expected_result {
                Err(
                    PredicateFailure::BytesDoesntMatch(
                        BytesDoesntMatch::new(slice_to_vec_u8(expect), slice_to_vec_u8(got)),
                    ),
                )
            } else {
                Err(PredicateFailure::BytesMatches(BytesMatches::new(slice_to_vec_u8(got))))
            }
        } else {
            Ok(())
        }
    }

    /// Check the exact-match expectation against a captured byte buffer.
    pub fn verify(&self, got: &[u8]) -> (r: Result<(), PredicateFailure>)
        ensures
            r is Ok <==> self.passes(got@),
            r matches Err(f) ==> self.failure_matches(got@, f),
            self.expect matches Content::Str(s) ==> (valid_utf8(got@) ==> (r is Ok
                <==> is_str_passes(s@, self.expected_result, decode_utf8(got@)))),
    {
        match &self.expect {
            Content::Str(expect) => {
                let text = decode_lossy(got);
                self.verify_str(expect.as_str(), text.as_str())
            },
            Content::Bytes(expect) => self.verify_bytes(expect.as_slice(), got),
        }
    }
}

/// Byte-for-byte equality of two slices.
pub(crate) fn bytes_equal(a: &[u8], b: &[u8]) -> (r: bool)
    ensures
        r == (a@ == b@),
{
    if a.len() != b.len() {
        return false;
    }
    let n = a.len();
    let mut i: usize = 0;
    while i < n
        invariant
            n == a@.len() == b@.len(),
            i <= n,
            forall|j: int| 0 <= j < i ==> a@[j] == b@[j],
        decreases n - i,
    {
        if a[i] != b[i] {
            return false;
        }
        i += 1;
    }
    proof {
        assert(a@ =~= b@);
    }
    true
}

/// A copy of a byte slice as an owned vector.
pub(crate) fn slice_to_vec_u8(data: &[u8]) -> (r: Vec<u8>)
    ensures
        r@ == data@,
{
    let mut v: Vec<u8> = Vec::new();
    let mut i: usize = 0;
    while i < data.len()
        invariant
            i <= data@.len(),
            v@ == data@.subrange(0, i as int),
        decreases data@.len() - i,
    {
        v.push(data[i]);
        assert(v@ =~= data@.subrange(0, i + 1 as int));
        i += 1;
    }
    assert(v@ =~= data@);
    v
}

/// The containment predicate: the captured content must (or, negated, must
/// not) contain the expected content.
pub struct ContainsPredicate {
    pub expect: Content,
    pub expected_result: bool,
}

impl ContainsPredicate {
    /// What this predicate says of a captured byte buffer.
    pub open spec fn passes(self, got: Seq<u8>) -> bool {
        match self.expect {
            Content::Str(s) => contains_str_passes(s@, self.expected_result, lossy_decode(got)),
            Content::Bytes(b) => contains_bytes_passes(b@, self.expected_result, got),
        }
    }

    /// The failure this predicate reports for a captured byte buffer.
    pub open spec fn failure_matches(self, got: Seq<u8>, f: PredicateFailure) -> bool {
        match self.expect {
            Content::Str(s) => if self.expected_result {
                f matches PredicateFailure::StrDoesntContain(e) && e.needle@ == s@ && e.haystack@
                    == lossy_decode(got)
            } else {
                f matches PredicateFailure::StrContains(e) && e.needle@ == s@ && e.haystack@
                    == lossy_decode(got)
            },
            Content::Bytes(b) => if self.expected_result {
                f matches PredicateFailure::BytesDoesntContain(e) && e.needle@ == b@ && e.haystack@
                    == got
            } else {
                f matches PredicateFailure::BytesContains(e) && e.needle@ == b@ && e.haystack@
                    == got
            },
        }
    }

    /// Check the containment expectation against text, without trimming.
    pub fn verify_str(&self, expect: &str, got: &str) -> (r: Result<(), PredicateFailure>)
        ensures
            r is Ok <==> contains_str_passes(expect@, self.expected_result, got@),
            r matches Err(f) ==> if self.expected_result {
                f matches PredicateFailure::StrDoesntContain(e) && e.needle@ == expect@
                    && e.haystack@ == got@
            } else {
                f matches PredicateFailure::StrContains(e) && e.needle@ == expect@ && e.haystack@
                    == got@
            },
    {
        let result = str_contains(got, expect);
        if result != self.expected_result {
            if self.expected_result {
                Err(
                    PredicateFailure::StrDoesntContain(
                        StrDoesntContain::new(expect.to_owned(), got.to_owned()),
                    ),
                )
            } else {
                Err(
                    PredicateFailure::StrContains(
                        StrContains::new(expect.to_owned(), got.to_owned()),
                    ),
                )
            }
        } else {
            Ok(())
        }
    }

    /// Check the containment expectation against raw bytes.
    pub fn verify_bytes(&self, expect: &[u8], got: &[u8]) -> (r: Result<(), PredicateFailure>)
        ensures
            r is Ok <==> contains_bytes_passes(expect@, self.expected_result, got@),
            r matches Err(f) ==> if self.expected_result {
                f matches PredicateFailure::BytesDoesntContain(e) && e.needle@ == expect@
                    && e.haystack@ == got@
            } else {
                f matches PredicateFailure::BytesContains(e) && e.needle@ == expect@ && e.haystack@
                    == got@
            },
    {
        let result = find_subsequence(got, expect).is_some();
        if result != self.expected_result {
            if self.expected_result {
                Err(
                    PredicateFailure::BytesDoesntContain(
                        BytesDoesntContain::new(slice_to_vec_u8(expect), slice_to_vec_u8(got)),
                    ),
                )
            } else {
                Err(
                    PredicateFailure::BytesContains(
                        BytesContains::new(slice_to_vec_u8(expect), slice_to_vec_u8(got)),
                    ),
                )
            }
        } else {
            Ok(())
        }
    }

    /// Check the containment expectation against a captured byte buffer.
    pub fn verify(&self, got: &[u8]) -> (r: Result<(), PredicateFailure>)
        ensures
            r is Ok <==> self.passes(got@),
            r matches Err(f) ==> self.failure_matches(got@, f),
    {
        match &self.expect {
            Content::Str(expect) => {
                let text = decode_lossy(got);
                self.verify_str(expect.as_str(), text.as_str())
            },
            Content::Bytes(expect) => self.verify_bytes(expect.as_slice(), got),
        }
    }
}

/// The escape-hatch predicate: a user-supplied boolean function over the
/// decoded text, with a message shown when it fails.
pub struct FnPredicate {
    pub pred: Box<dyn TextPredicate>,
    pub msg: String,
}

impl FnPredicate {
    /// Map the boolean returned by the user-supplied function to this
    /// predicate's result: success exactly when the function returned true.
    pub fn outcome(&self, passed: bool, got_text: String) -> (r: Result<(), PredicateFailure>)
        ensures
            r is Ok <==> passed,
            r matches Err(f) ==> f matches PredicateFailure::PredicateFailed(e) && e.msg@
                == self.msg@ && e.got == got_text,
    {
        if passed {
            Ok(())
        } else {
            Err(
                PredicateFailure::PredicateFailed(
                    PredicateFailed::new(self.msg.clone(), got_text),
                ),
            )
        }
    }

    /// Check the user-supplied predicate against a captured byte buffer.
    /// The user's function decides the result; whatever it returns, a
    /// failure carries this predicate's message and the decoded text.
    pub fn verify(&self, got: &[u8]) -> (r: Result<(), PredicateFailure>)
        ensures
            r matches Err(f) ==> f matches PredicateFailure::PredicateFailed(e) && e.msg@
                == self.msg@ && e.got@ == lossy_decode(got@),
    {
        let text = decode_lossy(got);
        let passed = self.pred.check(text.as_str());
        self.outcome(passed, text)
    }
}

/// The pattern predicate: the number of non-overlapping matches of the
/// pattern in the decoded text must equal the expected count — or, with no
/// count given, the pattern must match somewhere.
pub struct RegexPredicate {
    pub pattern: String,
    pub expected_count: Option<u64>,
}

impl RegexPredicate {
    /// What this predicate says of a captured byte buffer.
    pub open spec fn passes(self, got: Seq<u8>) -> bool {
        regex_passes(self.pattern@, self.expected_count, lossy_decode(got))
    }

    /// The failure this predicate reports for a captured byte buffer.
    pub open spec fn failure_matches(self, got: Seq<u8>, f: PredicateFailure) -> bool {
        f matches PredicateFailure::RegexMismatch(e) && e.pattern@ == self.pattern@ && e.expected
            == self.expected_count && (if regex_valid(self.pattern@) {
            e.observed matches Some(c) && c as nat == regex_count(
                self.pattern@,
                lossy_decode(got),
            )
        } else {
            e.observed is None
        })
    }

    /// Check the pattern expectation against a captured byte buffer.
    pub fn verify(&self, got: &[u8]) -> (r: Result<(), PredicateFailure>)
        ensures
            r is Ok <==> self.passes(got@),
            r matches Err(f) ==> self.failure_matches(got@, f),
    {
        let text = decode_lossy(got);
        let counted = count_regex_matches(self.pattern.as_str(), text.as_str());
        match counted {
            Some(c) => {
                let ok = match self.expected_count {
                    Some(n) => c == n,
                    None => c > 0,
                };
                if ok {
                    Ok(())
                } else {
                    Err(
                        PredicateFailure::RegexMismatch(
                            RegexMismatch::new(
                                self.pattern.clone(),
                                self.expected_count,
                                Some(c),
                            ),
                        ),
                    )
                }
            },
            None => Err(
                PredicateFailure::RegexMismatch(
                    RegexMismatch::new(self.pattern.clone(), self.expected_count, None),
                ),
            ),
        }
    }
}

/// A single expectation over one captured byte buffer, as a tagged union of
/// the predicate kinds.
pub enum ContentPredicate {
    Is(IsPredicate),
    Contains(ContainsPredicate),
    Fn(FnPredicate),
    MatchesRegex(RegexPredicate),
}

impl ContentPredicate {
    /// Whether this predicate's result is a function of the captured bytes
    /// alone. Only the user-supplied function predicate is not.
    pub open spec fn decided(self) -> bool {
        !(self is Fn)
    }

    /// What a decided predicate says of a captured byte buffer.
    pub open spec fn passes(self, got: Seq<u8>) -> bool {
        match self {
            ContentPredicate::Is(p) => p.passes(got),
            ContentPredicate::Contains(p) => p.passes(got),
            ContentPredicate::MatchesRegex(p) => p.passes(got),
            ContentPredicate::Fn(_) => arbitrary(),
        }
    }

    /// The failure this predicate reports for a captured byte buffer.
    pub open spec fn failure_matches(self, got: Seq<u8>, f: PredicateFailure) -> bool {
        match self {
            ContentPredicate::Is(p) => p.failure_matches(got, f),
            ContentPredicate::Contains(p) => p.failure_matches(got, f),
            ContentPredicate::MatchesRegex(p) => p.failure_matches(got, f),
            ContentPredicate::Fn(p) => f matches PredicateFailure::PredicateFailed(e) && e.msg@
                == p.msg@ && e.got@ == lossy_decode(got),
        }
    }

    /// Check this expectation against a captured byte buffer.
    pub fn verify(&self, got: &[u8]) -> (r: Result<(), PredicateFailure>)
        ensures
            self.decided() ==> (r is Ok <==> self.passes(got@)),
            r matches Err(f) ==> self.failure_matches(got@, f),
    {
        match self {
            ContentPredicate::Is(p) => p.verify(got),
            ContentPredicate::Contains(p) => p.verify(got),
            ContentPredicate::Fn(p) => p.verify(got),
            ContentPredicate::MatchesRegex(p) => p.verify(got),
        }
    }
}

// ------------------------------------------------------------------
// Rendering of failures.
// ------------------------------------------------------------------

impl StrDoesntContain {
    /// The message this failure renders to.
    pub open spec fn message_spec(self) -> Seq<char> {
        "Expected to contain needle.\nneedle=```"@ + self.needle@ + "```\nhaystack=```"@
            + self.haystack@ + "```"@
    }

    /// Render the failure as its message.
    pub fn render(&self) -> (r: String)
        ensures
            r@ == self.message_spec(),
    {
        let mut out: String = String::new();
        out.append("Expected to contain needle.\nneedle=```");
        out.append(self.needle.as_str());
        out.append("```\nhaystack=```");
        out.append(self.haystack.as_str());
        out.append("```");
        out
    }
}

impl BytesDoesntContain {
    /// The message this failure renders to.
    pub open spec fn message_spec(self) -> Seq<char> {
        "Expected to contain needle.\nneedle=```"@ + bytes_rep(self.needle@)
            + "```\nhaystack=```"@ + bytes_rep(self.haystack@) + "```"@
    }

    /// Render the failure as its message.
    pub fn render(&self) -> (r: String)
        ensures
            r@ == self.message_spec(),
    {
        let mut out: String = String::new();
        out.append("Expected to contain needle.\nneedle=```");
        let needle_rep = bytes_to_string(self.needle.as_slice());
        out.append(needle_rep.as_str());
        out.append("```\nhaystack=```");
        let haystack_rep = bytes_to_string(self.haystack.as_slice());
        out.append(haystack_rep.as_str());
        out.append("```");
        out
    }
}

impl StrContains {
    /// The message this failure renders to.
    pub open spec fn message_spec(self) -> Seq<char> {
        "Expected to not contain needle.\nneedle=```"@ + self.needle@ + "```\nhaystack=```"@
            + self.haystack@ + "```"@
    }

    /// Render the failure as its message.
    pub fn render(&self) -> (r: String)
        ensures
            r@ == self.message_spec(),
    {
        let mut out: String = String::new();
        out.append("Expected to not contain needle.\nneedle=```");
        out.append(self.needle.as_str());
        out.append("```\nhaystack=```");
        out.append(self.haystack.as_str());
        out.append("```");
        out
    }
}

impl BytesContains {
    /// The message this failure renders to.
    pub open spec fn message_spec(self) -> Seq<char> {
        "Expected to not contain needle.\nneedle=```"@ + bytes_rep(self.needle@)
            + "```\nhaystack=```"@ + bytes_rep(self.haystack@) + "```"@
    }

    /// Render the failure as its message.
    pub fn render(&self) -> (r: String)
        ensures
            r@ == self.message_spec(),
    {
        let mut out: String = String::new();
        out.append("Expected to not contain needle.\nneedle=```");
        let needle_rep = bytes_to_string(self.needle.as_slice());
        out.append(needle_rep.as_str());
        out.append("```\nhaystack=```");
        let haystack_rep = bytes_to_string(self.haystack.as_slice());
        out.append(haystack_rep.as_str());
        out.append("```");
        out
    }
}

impl StrDoesntMatch {
    /// The message this failure renders to: the rendered line diff.
    pub open spec fn message_spec(self) -> Seq<char> {
        "Didn't match.\ndiff=\n``"@ + self.diff@ + "```"@
    }

    /// Render the failure as its message.
    pub fn render(&self) -> (r: String)
        ensures
            r@ == self.message_spec(),
    {
        let mut out: String = String::new();
        out.append("Didn't match.\ndiff=\n``");
        out.append(self.diff.as_str());
        out.append("```");
        out
    }
}

impl BytesDoesntMatch {
    /// The message this failure renders to.
    pub open spec fn message_spec(self) -> Seq<char> {
        "Didn't match.\nexpected=```"@ + bytes_rep(self.expected@) + "```\ngot=```"@ + bytes_rep(
            self.got@,
        ) + "```"@
    }

    /// Render the failure as its message.
    pub fn render(&self) -> (r: String)
        ensures
            r@ == self.message_spec(),
    {
        let mut out: String = String::new();
        out.append("Didn't match.\nexpected=```");
        let expected_rep = bytes_to_string(self.expected.as_slice());
        out.append(expected_rep.as_str());
        out.append("```\ngot=```");
        let got_rep = bytes_to_string(self.got.as_slice());
        out.append(got_rep.as_str());
        out.append("```");
        out
    }
}

impl StrMatches {
    /// The message this failure renders to.
    pub open spec fn message_spec(self) -> Seq<char> {
        "Expected to not match.output=```"@ + self.output@ + "```"@
    }

    /// Render the failure as its message.
    pub fn render(&self) -> (r: String)
        ensures
            r@ == self.message_spec(),
    {
        let mut out: String = String::new();
        out.append("Expected to not match.output=```");
        out.append(self.output.as_str());
        out.append("```");
        out
    }
}

impl BytesMatches {
    /// The message this failure renders to.
    pub open spec fn message_spec(self) -> Seq<char> {
        "Expected to not match.output=```"@ + bytes_rep(self.output@) + "```"@
    }

    /// Render the failure as its message.
    pub fn render(&self) -> (r: String)
        ensures
            r@ == self.message_spec(),
    {
        let mut out: String = String::new();
        out.append("Expected to not match.output=```");
        let output_rep = bytes_to_string(self.output.as_slice());
        out.append(output_rep.as_str());
        out.append("```");
        out
    }
}

impl PredicateFailed {
    /// The message this failure renders to.
    pub open spec fn message_spec(self) -> Seq<char> {
        "Predicate failed: "@ + self.msg@ + "got=```"@ + self.got@ + "```\n"@
    }

    /// Render the failure as its message.
    pub fn render(&self) -> (r: String)
        ensures
            r@ == self.message_spec(),
    {
        let mut out: String = String::new();
        out.append("Predicate failed: ");
        out.append(self.msg.as_str());
        out.append("got=```");
        out.append(self.got.as_str());
        out.append("```\n");
        out
    }
}

impl RegexMismatch {
    /// The rendering of an expected count: a number, or at least one match.
    pub open spec fn expected_rep(self) -> Seq<char> {
        match self.expected {
            Some(n) => dec_rep(n as int),
            None => "at least 1"@,
        }
    }

    /// The rendering of an observed count: a number, or an invalid pattern.
    pub open spec fn observed_rep(self) -> Seq<char> {
        match self.observed {
            Some(n) => dec_rep(n as int),
            None => "invalid pattern"@,
        }
    }

    /// The message this failure renders to.
    pub open spec fn message_spec(self) -> Seq<char> {
        "Pattern mismatch.\npattern=```"@ + self.pattern@ + "```\nexpected="@
            + self.expected_rep() + "\nobserved="@ + self.observed_rep()
    }

    /// Render the failure as its message.
    pub fn render(&self) -> (r: String)
        ensures
            r@ == self.message_spec(),
    {
        let mut out: String = String::new();
        out.append("Pattern mismatch.\npattern=```");
        out.append(self.pattern.as_str());
        out.append("```\nexpected=");
        match self.expected {
            Some(n) => {
                let rep = u64_to_string(n);
                out.append(rep.as_str());
            },
            None => {
                out.append("at least 1");
            },
        }
        out.append("\nobserved=");
        match self.observed {
            Some(n) => {
                let rep = u64_to_string(n);
                out.append(rep.as_str());
            },
            None => {
                out.append("invalid pattern");
            },
        }
        out
    }
}

impl PredicateFailure {
    /// The message this failure renders to.
    pub open spec fn message_spec(self) -> Seq<char> {
        match self {
            PredicateFailure::StrDoesntContain(e) => e.message_spec(),
            PredicateFailure::BytesDoesntContain(e) => e.message_spec(),
            PredicateFailure::StrContains(e) => e.message_spec(),
            PredicateFailure::BytesContains(e) => e.message_spec(),
            PredicateFailure::StrDoesntMatch(e) => e.message_spec(),
            PredicateFailure::BytesDoesntMatch(e) => e.message_spec(),
            PredicateFailure::StrMatches(e) => e.message_spec(),
            PredicateFailure::BytesMatches(e) => e.message_spec(),
            PredicateFailure::PredicateFailed(e) => e.message_spec(),
            PredicateFailure::RegexMismatch(e) => e.message_spec(),
        }
    }

    /// Render the failure as its message.
    pub fn render(&self) -> (r: String)
        ensures
            r@ == self.message_spec(),
    {
        match self {
            PredicateFailure::StrDoesntContain(e) => e.render(),
            PredicateFailure::BytesDoesntContain(e) => e.render(),
            PredicateFailure::StrContains(e) => e.render(),
            PredicateFailure::BytesContains(e) => e.render(),
            PredicateFailure::StrDoesntMatch(e) => e.render(),
            PredicateFailure::BytesDoesntMatch(e) => e.render(),
            PredicateFailure::StrMatches(e) => e.render(),
            PredicateFailure::BytesMatches(e) => e.render(),
            PredicateFailure::PredicateFailed(e) => e.render(),
            PredicateFailure::RegexMismatch(e) => e.render(),
        }
    }
}

// ------------------------------------------------------------------
// Streams and the captured result of one execution.
// ------------------------------------------------------------------

/// The stream an output predicate applies to.
#[derive(Clone, Copy)]
pub enum OutputKind {
    StdOut,
    StdErr,
}

/// The immutable record of a finished child process: its exit code, if it
/// terminated normally, and both captured streams. A process ended by a
/// signal has no code and counts as unsuccessful.
pub struct CapturedResult {
    pub code: Option<i32>,
    pub stdout: Vec<u8>,
    pub stderr: Vec<u8>,
}

impl CapturedResult {
    /// Success means normal termination with exit code zero.
    pub open spec fn success_spec(self) -> bool {
        self.code == Some(0i32)
    }

    /// Whether the process terminated normally with exit code zero.
    pub fn success(&self) -> (r: bool)
        ensures
            r == self.success_spec(),
    {
        match self.code {
            Some(c) => c == 0,
            None => false,
        }
    }
}

impl OutputKind {
    /// The bytes of the selected stream.
    pub open spec fn select_spec(self, o: CapturedResult) -> Seq<u8> {
        match self {
            OutputKind::StdOut => o.stdout@,
            OutputKind::StdErr => o.stderr@,
        }
    }

    /// Select this stream's bytes out of a captured result.
    pub fn select<'a>(self, o: &'a CapturedResult) -> (r: &'a Vec<u8>)
        ensures
            r@ == self.select_spec(*o),
    {
        match self {
            OutputKind::StdOut => &o.stdout,
            OutputKind::StdErr => &o.stderr,
        }
    }

    /// The stream's name.
    pub open spec fn name_spec(self) -> Seq<char> {
        match self {
            OutputKind::StdOut => "stdout"@,
            OutputKind::StdErr => "stderr"@,
        }
    }

    /// The stream's name, as written in failure reports.
    pub fn name(&self) -> (r: &'static str)
        ensures
            r@ == self.name_spec(),
    {
        match self {
            OutputKind::StdOut => "stdout",
            OutputKind::StdErr => "stderr",
        }
    }
}

/// A predicate failure wrapped with the stream it occurred on.
pub struct OutputError {
    pub kind: OutputKind,
    pub cause: Option<PredicateFailure>,
}

impl OutputError {
    /// An output failure on the given stream, with no cause attached yet.
    pub fn new(kind: OutputKind) -> (r: Self)
        ensures
            r.kind == kind,
            r.cause is None,
    {
        Self { kind, cause: None }
    }

    /// Attach the underlying predicate failure.
    pub fn chain(self, cause: PredicateFailure) -> (r: Self)
        ensures
            r.kind == self.kind,
            r.cause == Some(cause),
    {
        Self { kind: self.kind, cause: Some(cause) }
    }

    /// The message this failure renders to; the attached cause renders as a
    /// separate link of the failure chain.
    pub open spec fn message_spec(self) -> Seq<char> {
        "Unexpected "@ + self.kind.name_spec() + "\n"@
    }

    /// Render this level of the failure as its message.
    pub fn render(&self) -> (r: String)
        ensures
            r@ == self.message_spec(),
    {
        let mut out: String = String::new();
        out.append("Unexpected ");
        out.append(self.kind.name());
        out.append("\n");
        out
    }
}

// ------------------------------------------------------------------
// Assertions over a single stream.
// ------------------------------------------------------------------

/// One expectation over the content of a stream, before the stream is chosen.
pub struct Output {
    pub pred: ContentPredicate,
}

impl Output {
    /// Expect the output to contain the given content.
    pub fn contains(output: Content) -> (r: Self)
        ensures
            r.pred == (ContentPredicate::Contains(
                ContainsPredicate { expect: output, expected_result: true },
            )),
    {
        Self::new(
            ContentPredicate::Contains(
                ContainsPredicate { expect: output, expected_result: true },
            ),
        )
    }

    /// Expect the output to be exactly the given content.
    pub fn is(output: Content) -> (r: Self)
        ensures
            r.pred == (ContentPredicate::Is(
                IsPredicate { expect: output, expected_result: true },
            )),
    {
        Self::new(ContentPredicate::Is(IsPredicate { expect: output, expected_result: true }))
    }

    /// Expect the output to not contain the given content.
    pub fn doesnt_contain(output: Content) -> (r: Self)
        ensures
            r.pred == (ContentPredicate::Contains(
                ContainsPredicate { expect: output, expected_result: false },
            )),
    {
        Self::new(
            ContentPredicate::Contains(
                ContainsPredicate { expect: output, expected_result: false },
            ),
        )
    }

    /// Expect the output to not be exactly the given content.
    pub fn isnt(output: Content) -> (r: Self)
        ensures
            r.pred == (ContentPredicate::Is(
                IsPredicate { expect: output, expected_result: false },
            )),
    {
        Self::new(ContentPredicate::Is(IsPredicate { expect: output, expected_result: false }))
    }

    /// Expect the output to satisfy the given check; the message is shown
    /// when it does not.
    pub fn satisfies(pred: Box<dyn TextPredicate>, msg: &str) -> (r: Self)
        ensures
            r.pred matches ContentPredicate::Fn(p) && p.msg@ == msg@,
    {
        Self::new(ContentPredicate::Fn(FnPredicate { pred, msg: msg.to_owned() }))
    }

    /// Expect the pattern to match somewhere in the output.
    pub fn matches(pattern: &str) -> (r: Self)
        ensures
            r.pred matches ContentPredicate::MatchesRegex(p) && p.pattern@ == pattern@
                && p.expected_count is None,
    {
        Self::new(
            ContentPredicate::MatchesRegex(
                RegexPredicate { pattern: pattern.to_owned(), expected_count: None },
            ),
        )
    }

    /// Expect the pattern to match exactly `count` times in the output.
    pub fn matches_count(pattern: &str, count: u64) -> (r: Self)
        ensures
            r.pred matches ContentPredicate::MatchesRegex(p) && p.pattern@ == pattern@
                && p.expected_count == Some(count),
    {
        Self::new(
            ContentPredicate::MatchesRegex(
                RegexPredicate { pattern: pattern.to_owned(), expected_count: Some(count) },
            ),
        )
    }

    fn new(pred: ContentPredicate) -> (r: Self)
        ensures
            r.pred == pred,
    {
        Self { pred }
    }

    /// Check this expectation against a captured byte buffer.
    pub fn verify(&self, got: &[u8]) -> (r: Result<(), PredicateFailure>)
        ensures
            self.pred.decided() ==> (r is Ok <==> self.pred.passes(got@)),
            r matches Err(f) ==> self.pred.failure_matches(got@, f),
    {
        self.pred.verify(got)
    }
}

/// One expectation bound to the stream it reads.
pub struct OutputPredicate {
    pub kind: OutputKind,
    pub pred: Output,
}

impl OutputPredicate {
    /// Bind a content expectation to a stream.
    pub fn new(kind: OutputKind, pred: Output) -> (r: Self)
        ensures
            r.kind == kind,
            r.pred == pred,
    {
        Self { kind, pred }
    }

    /// Whether this predicate's result is a function of the captured result
    /// alone.
    pub open spec fn decided(self) -> bool {
        self.pred.pred.decided()
    }

    /// What a decided predicate says of a captured result.
    pub open spec fn passes(self, got: CapturedResult) -> bool {
        self.pred.pred.passes(self.kind.select_spec(got))
    }

    /// The failure this predicate reports for a captured result.
    pub open spec fn failure_matches(self, got: CapturedResult, e: OutputError) -> bool {
        &&& e.kind == self.kind
        &&& e.cause matches Some(f) && self.pred.pred.failure_matches(
            self.kind.select_spec(got),
            f,
        )
    }

    /// Check this expectation against its stream of a captured result.
    pub fn verify(&self, got: &CapturedResult) -> (r: Result<(), OutputError>)
        ensures
            self.decided() ==> (r is Ok <==> self.passes(*got)),
            r matches Err(e) ==> self.failure_matches(*got, e),
    {
        let bytes = self.kind.select(got);
        match self.pred.verify(bytes.as_slice()) {
            Ok(()) => Ok(()),
            Err(f) => Err(OutputError::new(self.kind).chain(f)),
        }
    }
}

// ------------------------------------------------------------------
// Laws of the predicate semantics.
// ------------------------------------------------------------------

/// Every text, compared against itself, passes the exact-match predicate and
/// fails its negation.
pub proof fn lemma_is_self(s: Seq<char>)
    ensures
        is_str_passes(s, true, s),
        !is_str_passes(s, false, s),
{
}

/// Every text, compared against the bytes of its own UTF-8 encoding, passes
/// the exact-match predicate and fails its negation: those bytes are valid
/// UTF-8 and decode back to the text itself.
pub proof fn lemma_is_self_encoded(s: Seq<char>)
    ensures
        valid_utf8(vstd::utf8::encode_utf8(s)),
        is_str_passes(s, true, decode_utf8(vstd::utf8::encode_utf8(s))),
        !is_str_passes(s, false, decode_utf8(vstd::utf8::encode_utf8(s))),
{
    vstd::utf8::encode_utf8_valid_utf8(s);
    vstd::utf8::encode_utf8_decode_utf8(s);
}

/// Texts that differ after trimming fail the exact-match predicate and pass
/// its negation.
pub proof fn lemma_is_unequal(expect: Seq<char>, got: Seq<char>)
    requires
        trim_spec(expect) != trim_spec(got),
    ensures
        !is_str_passes(expect, true, got),
        is_str_passes(expect, false, got),
{
}

/// The polarity flag is a pure boolean inverse: the negated exact-match
/// predicate over text passes exactly when the positive one fails.
pub proof fn lemma_polarity_is_str(expect: Seq<char>, got: Seq<char>)
    ensures
        is_str_passes(expect, false, got) == !is_str_passes(expect, true, got),
{
}

/// The polarity flag is a pure boolean inverse for byte equality.
pub proof fn lemma_polarity_is_bytes(expect: Seq<u8>, got: Seq<u8>)
    ensures
        is_bytes_passes(expect, false, got) == !is_bytes_passes(expect, true, got),
{
}

/// The polarity flag is a pure boolean inverse for text containment.
pub proof fn lemma_polarity_contains_str(needle: Seq<char>, got: Seq<char>)
    ensures
        contains_str_passes(needle, false, got) == !contains_str_passes(needle, true, got),
{
}

/// The polarity flag is a pure boolean inverse for byte containment.
pub proof fn lemma_polarity_contains_bytes(needle: Seq<u8>, got: Seq<u8>)
    ensures
        contains_bytes_passes(needle, false, got) == !contains_bytes_passes(needle, true, got),
{
}

/// A haystack built by putting any text before and after the needle passes
/// the containment predicate and fails its negation.
pub proof fn lemma_contains_surround(before: Seq<char>, needle: Seq<char>, after: Seq<char>)
    ensures
        contains_str_passes(needle, true, before + needle + after),
        !contains_str_passes(needle, false, before + needle + after),
{
    crate::text::lemma_contains_concat(before, needle, after);
}

/// A byte haystack built by putting any bytes before and after the needle
/// passes the containment predicate and fails its negation.
pub proof fn lemma_contains_surround_bytes(before: Seq<u8>, needle: Seq<u8>, after: Seq<u8>)
    ensures
        contains_bytes_passes(needle, true, before + needle + after),
        !contains_bytes_passes(needle, false, before + needle + after),
{
    crate::text::lemma_contains_concat(before, needle, after);
}

/// For a valid pattern with an expected count, the pattern predicate passes
/// exactly when the number of non-overlapping matches equals that count.
pub proof fn lemma_regex_exact_count(pattern: Seq<char>, text: Seq<char>, n: u64)
    requires
        regex_valid(pattern),
    ensures
        regex_passes(pattern, Some(n), text) <==> regex_count(pattern, text) == n as nat,
{
}

} // verus!
