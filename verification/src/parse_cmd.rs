//! Splitting a command line written as one text value into its words, aware
//! of single and double quotes, and undoing JSON-style escaping of a quoted
//! word.

use vstd::prelude::*;
use vstd::string::*;
use crate::text::is_ws;

verus! {

/// The quote context after reading one character: a matching closing quote
/// pops the innermost open quote, a new quote character opens one, and any
/// other character leaves the context unchanged.
pub open spec fn quote_stack_next(stack: Seq<char>, c: char) -> Seq<char> {
    if c == '"' || c == '\'' {
        if stack.len() > 0 && stack.last() == c {
            stack.drop_last()
        } else {
            stack.push(c)
        }
    } else {
        stack
    }
}

/// The tokenizer state: the finished words, the word being read, and the
/// stack of open quotes.
pub struct ParseState {
    pub args: Seq<Seq<char>>,
    pub cur: Seq<char>,
    pub stack: Seq<char>,
}

/// One step of the tokenizer: whitespace outside of quotes finishes the
/// current word; every other character extends it.
pub open spec fn parse_step(st: ParseState, c: char) -> ParseState {
    if st.stack.len() == 0 && is_ws(c) {
        ParseState { args: st.args.push(st.cur), cur: Seq::empty(), stack: st.stack }
    } else {
        ParseState {
            args: st.args,
            cur: st.cur.push(c),
            stack: quote_stack_next(st.stack, c),
        }
    }
}

/// The tokenizer run over a whole text, from a given state.
pub open spec fn parse_fold(s: Seq<char>, st: ParseState) -> ParseState
    decreases s.len(),
{
    if s.len() == 0 {
        st
    } else {
        parse_fold(s.drop_first(), parse_step(st, s[0]))
    }
}

/// The initial tokenizer state.
pub open spec fn parse_init() -> ParseState {
    ParseState { args: Seq::empty(), cur: Seq::empty(), stack: Seq::empty() }
}

/// The words of a command line: the tokenizer run over the whole text, with
/// a last unfinished word kept only when it is non-empty.
pub open spec fn parse_cmd_spec(s: Seq<char>) -> Seq<Seq<char>> {
    let st = parse_fold(s, parse_init());
    if st.cur.len() > 0 {
        st.args.push(st.cur)
    } else {
        st.args
    }
}

proof fn lemma_parse_fold_push(s: Seq<char>, c: char, st: ParseState)
    ensures
        parse_fold(s.push(c), st) == parse_step(parse_fold(s, st), c),
    decreases s.len(),
{
    if s.len() == 0 {
        assert(s.push(c).drop_first() =~= Seq::<char>::empty());
        assert(s.push(c)[0] == c);
        assert(parse_fold(s.push(c), st) == parse_fold(Seq::<char>::empty(), parse_step(st, c)));
    } else {
        assert(s.push(c).drop_first() =~= s.drop_first().push(c));
        assert(s.push(c)[0] == s[0]);
        lemma_parse_fold_push(s.drop_first(), c, parse_step(st, s[0]));
    }
}

/// Split a command line into its words: whitespace separates words, except
/// inside single or double quotes, which themselves stay part of the word.
pub fn parse_cmd_str(s: &str) -> (r: Vec<String>)
    ensures
        r@.map_values(|w: String| w@) == parse_cmd_spec(s@),
{
    let n = s.unicode_len();
    let mut args: Vec<String> = Vec::new();
    let mut stack: Vec<char> = Vec::new();
    let mut start: usize = 0;
    let mut i: usize = 0;
    proof {
        assert(s@.subrange(0, 0) =~= Seq::<char>::empty());
        assert(args@.map_values(|w: String| w@) =~= Seq::<Seq<char>>::empty());
        assert(parse_fold(s@.subrange(0, 0), parse_init()) == parse_init());
        assert(s@.subrange(0, 0) =~= s@.subrange(0 as int, 0 as int));
    }
    while i < n
        invariant
            n == s@.len(),
            start <= i <= n,
            parse_fold(s@.subrange(0, i as int), parse_init()) == (ParseState {
                args: args@.map_values(|w: String| w@),
                cur: s@.subrange(start as int, i as int),
                stack: stack@,
            }),
        decreases n - i,
    {
        let ghost prefix = s@.subrange(0, i as int);
        let ghost st = parse_fold(prefix, parse_init());
        let c = s.get_char(i);
        proof {
            lemma_parse_fold_push(prefix, c, parse_init());
            assert(prefix.push(c) =~= s@.subrange(0, i + 1 as int));
        }
        let top_level = stack.len() == 0;
        if top_level && is_ws_exec(c) {
            let word = s.substring_char(start, i).to_owned();
            args.push(word);
            start = i + 1;
            proof {
                assert(args@.map_values(|w: String| w@) =~= st.args.push(st.cur));
                assert(s@.subrange(start as int, i + 1 as int) =~= Seq::<char>::empty());
            }
        } else {
            if c == '"' || c == '\'' {
                let top_matches = if stack.len() > 0 {
                    stack[stack.len() - 1] == c
                } else {
                    false
                };
                if top_matches {
                    stack.pop();
                    proof {
                        assert(stack@ =~= quote_stack_next(st.stack, c));
                    }
                } else {
                    stack.push(c);
                }
            }
            proof {
                assert(stack@ == quote_stack_next(st.stack, c));
                assert(s@.subrange(start as int, i + 1 as int) =~= s@.subrange(
                    start as int,
                    i as int,
                ).push(s@[i as int]));
            }
        }
        i += 1;
    }
    proof {
        assert(s@.subrange(0, n as int) =~= s@);
    }
    if start < n {
        let word = s.substring_char(start, n).to_owned();
        proof {
            assert((args@ + seq![word]).map_values(|w: String| w@) =~= args@.map_values(
                |w: String| w@,
            ).push(word@));
        }
        args.push(word);
    }
    args
}

/// Whitespace test, shared with the text utilities.
fn is_ws_exec(c: char) -> (r: bool)
    ensures
        r == is_ws(c),
{
    crate::text::is_ws_char(c)
}

/// A value that can present itself as a command line: either a ready list of
/// words or one text value to be split on whitespace outside quotes.
pub trait ToCmd {
    fn to_cmd(&self) -> Vec<String>;
}

impl ToCmd for str {
    fn to_cmd(&self) -> (r: Vec<String>)
        ensures
            r@.map_values(|w: String| w@) == parse_cmd_spec(self@),
    {
        parse_cmd_str(self)
    }
}

impl ToCmd for [&str] {
    fn to_cmd(&self) -> (r: Vec<String>)
        ensures
            r@.map_values(|w: String| w@) == self@.map_values(|w: &str| w@),
    {
        let mut words: Vec<String> = Vec::new();
        let mut i: usize = 0;
        while i < self.len()
            invariant
                i <= self@.len(),
                words@.len() == i,
                forall|k: int| 0 <= k < i ==> (#[trigger] words@[k])@ == self@[k]@,
            decreases self@.len() - i,
        {
            words.push(self[i].to_owned());
            i += 1;
        }
        proof {
            assert(words@.map_values(|w: String| w@) =~= self@.map_values(|w: &str| w@));
        }
        words
    }
}

impl<'a, const N: usize> ToCmd for [&'a str; N] {
    fn to_cmd(&self) -> (r: Vec<String>)
        ensures
            r@.map_values(|w: String| w@) == self@.map_values(|w: &str| w@),
    {
        let mut words: Vec<String> = Vec::new();
        let mut i: usize = 0;
        while i < N
            invariant
                i <= N,
                self@.len() == N,
                words@.len() == i,
                forall|k: int| 0 <= k < i ==> (#[trigger] words@[k])@ == self@[k]@,
            decreases N - i,
        {
            words.push(self[i].to_owned());
            i += 1;
        }
        proof {
            assert(words@.map_values(|w: String| w@) =~= self@.map_values(|w: &str| w@));
        }
        words
    }
}

/// The decoding of one JSON string literal, a function of the input text
/// alone; absent when the input is not a valid JSON string.
pub uninterp spec fn json_decoded_string(text: Seq<char>) -> Option<Seq<char>>;

/// Relies on `serde_json::from_str::<String>`: it decodes the input exactly
/// when the input is a single valid JSON string literal, and the result
/// depends on the input text alone.
#[verifier::external_body]
fn parse_json_string(x: &str) -> (r: Option<String>)
    ensures
        r is Some <==> json_decoded_string(x@) is Some,
        r matches Some(s) ==> json_decoded_string(x@) == Some(s@),
{
    serde_json::from_str::<String>(x).ok()
}

/// Whether a text value is wrapped in double quotes.
pub open spec fn double_quoted(x: Seq<char>) -> bool {
    x.len() > 0 && x[0] == '"' && x[x.len() - 1] == '"'
}

/// What flattening an escaped word yields: a double-quoted word decodes as a
/// JSON string literal, anything else — a bare word, or a quoted word that
/// does not decode — passes through unchanged.
pub open spec fn flatten_spec(x: Seq<char>) -> Seq<char> {
    if double_quoted(x) {
        match json_decoded_string(x) {
            Some(v) => v,
            None => x,
        }
    } else {
        x
    }
}

/// Undo JSON-style escaping of a double-quoted word; a word that is not
/// double-quoted, or does not decode, passes through unchanged.
pub fn flatten_escaped_string(x: &str) -> (r: String)
    ensures
        r@ == flatten_spec(x@),
{
    let n = x.unicode_len();
    let is_quoted = n > 0 && x.get_char(0) == '"' && x.get_char(n - 1) == '"';
    if is_quoted {
        match parse_json_string(x) {
            Some(v) => v,
            None => x.to_owned(),
        }
    } else {
        x.to_owned()
    }
}

} // verus!
