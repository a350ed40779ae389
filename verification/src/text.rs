//! Character-level text utilities: whitespace trimming, line splitting,
//! substring search, decimal rendering, and lossy UTF-8 decoding.

use vstd::prelude::*;
use vstd::string::*;
use vstd::utf8::{decode_utf8, valid_utf8};

verus! {

/// The characters with the Unicode `White_Space` property, the set that
/// `str::trim` strips from both ends of a text value.
pub open spec fn is_ws(c: char) -> bool {
    ||| c == '\u{9}'
    ||| c == '\u{a}'
    ||| c == '\u{b}'
    ||| c == '\u{c}'
    ||| c == '\u{d}'
    ||| c == ' '
    ||| c == '\u{85}'
    ||| c == '\u{a0}'
    ||| c == '\u{1680}'
    ||| c == '\u{2000}'
    ||| c == '\u{2001}'
    ||| c == '\u{2002}'
    ||| c == '\u{2003}'
    ||| c == '\u{2004}'
    ||| c == '\u{2005}'
    ||| c == '\u{2006}'
    ||| c == '\u{2007}'
    ||| c == '\u{2008}'
    ||| c == '\u{2009}'
    ||| c == '\u{200a}'
    ||| c == '\u{2028}'
    ||| c == '\u{2029}'
    ||| c == '\u{202f}'
    ||| c == '\u{205f}'
    ||| c == '\u{3000}'
}

/// Whitespace test over a single character, matching [`is_ws`].
pub fn is_ws_char(c: char) -> (r: bool)
    ensures
        r == is_ws(c),
{
    c == '\u{9}' || c == '\u{a}' || c == '\u{b}' || c == '\u{c}' || c == '\u{d}' || c == ' '
        || c == '\u{85}' || c == '\u{a0}' || c == '\u{1680}'
        || (c >= '\u{2000}' && c <= '\u{200a}') || c == '\u{2028}' || c == '\u{2029}'
        || c == '\u{202f}' || c == '\u{205f}' || c == '\u{3000}'
}

/// The text with leading whitespace removed.
pub open spec fn trim_start_spec(s: Seq<char>) -> Seq<char>
    decreases s.len(),
{
    if s.len() > 0 && is_ws(s[0]) {
        trim_start_spec(s.drop_first())
    } else {
        s
    }
}

/// The text with trailing whitespace removed.
pub open spec fn trim_end_spec(s: Seq<char>) -> Seq<char>
    decreases s.len(),
{
    if s.len() > 0 && is_ws(s[s.len() - 1]) {
        trim_end_spec(s.drop_last())
    } else {
        s
    }
}

/// The text with both leading and trailing whitespace removed, the
/// normalisation applied to both sides of an exact-match comparison.
pub open spec fn trim_spec(s: Seq<char>) -> Seq<char> {
    trim_end_spec(trim_start_spec(s))
}

proof fn lemma_trim_start_subrange(s: Seq<char>, i: int)
    requires
        0 <= i <= s.len(),
        forall|j: int| 0 <= j < i ==> is_ws(s[j]),
        i < s.len() ==> !is_ws(s[i]),
    ensures
        trim_start_spec(s) == s.subrange(i, s.len() as int),
    decreases i,
{
    if i == 0 {
        assert(s.subrange(0, s.len() as int) =~= s);
    } else {
        let t = s.drop_first();
        assert(trim_start_spec(s) == trim_start_spec(t));
        lemma_trim_start_subrange(t, i - 1);
        assert(t.subrange(i - 1, t.len() as int) =~= s.subrange(i, s.len() as int));
    }
}

proof fn lemma_trim_end_subrange(s: Seq<char>, e: int)
    requires
        0 <= e <= s.len(),
        forall|j: int| e <= j < s.len() ==> is_ws(s[j]),
        e > 0 ==> !is_ws(s[e - 1]),
    ensures
        trim_end_spec(s) == s.subrange(0, e),
    decreases s.len() - e,
{
    if e == s.len() {
        assert(s.subrange(0, s.len() as int) =~= s);
    } else {
        let t = s.drop_last();
        assert(trim_end_spec(s) == trim_end_spec(t));
        lemma_trim_end_subrange(t, e);
        assert(t.subrange(0, e) =~= s.subrange(0, e));
    }
}

/// Remove leading and trailing whitespace from a text value.
pub fn trim_str(s: &str) -> (r: String)
    ensures
        r@ == trim_spec(s@),
{
    let n = s.unicode_len();
    let mut start: usize = 0;
    while start < n && is_ws_char(s.get_char(start))
        invariant
            n == s@.len(),
            start <= n,
            forall|j: int| 0 <= j < start ==> is_ws(s@[j]),
        decreases n - start,
    {
        start += 1;
    }
    proof {
        lemma_trim_start_subrange(s@, start as int);
    }
    let ghost mid = s@.subrange(start as int, n as int);
    let mut end: usize = n;
    while end > start && is_ws_char(s.get_char(end - 1))
        invariant
            n == s@.len(),
            start <= end <= n,
            mid == s@.subrange(start as int, n as int),
            forall|j: int| end <= j < n ==> is_ws(s@[j]),
        decreases end,
    {
        end -= 1;
    }
    proof {
        assert(forall|j: int| (end - start) <= j < mid.len() ==> is_ws(mid[j]));
        lemma_trim_end_subrange(mid, end - start);
        assert(mid.subrange(0, end - start) =~= s@.subrange(start as int, end as int));
    }
    let r = s.substring_char(start, end).to_owned();
    r
}

/// The character sequence of a text value, as a vector.
pub fn chars_of(s: &str) -> (r: Vec<char>)
    ensures
        r@ == s@,
{
    let n = s.unicode_len();
    let mut r: Vec<char> = Vec::new();
    let mut i: usize = 0;
    while i < n
        invariant
            n == s@.len(),
            i <= n,
            r@ == s@.subrange(0, i as int),
        decreases n - i,
    {
        r.push(s.get_char(i));
        assert(r@ =~= s@.subrange(0, i + 1 as int));
        i += 1;
    }
    assert(r@ =~= s@);
    r
}

/// True when `needle` occurs in `hay` starting at position `i`.
pub open spec fn contains_at<A>(hay: Seq<A>, needle: Seq<A>, i: int) -> bool {
    &&& 0 <= i
    &&& i + needle.len() <= hay.len()
    &&& hay.subrange(i, i + needle.len()) == needle
}

/// True when `needle` occurs somewhere in `hay` as a contiguous run.
pub open spec fn seq_contains<A>(hay: Seq<A>, needle: Seq<A>) -> bool {
    exists|i: int| contains_at(hay, needle, i)
}

/// A run of any sequence placed between two others contains it.
///
/// For every needle and all surrounding text, the concatenation
/// `before + needle + after` contains `needle`.
pub proof fn lemma_contains_concat<A>(before: Seq<A>, needle: Seq<A>, after: Seq<A>)
    ensures
        seq_contains(before + needle + after, needle),
{
    let hay = before + needle + after;
    let i = before.len() as int;
    assert(hay.subrange(i, i + needle.len()) =~= needle);
    assert(contains_at(hay, needle, i));
}

/// The position of the first occurrence of `needle` in `haystack`, if any.
///
/// An empty needle occurs at position zero of every haystack.
pub fn find_subsequence(haystack: &[u8], needle: &[u8]) -> (r: Option<usize>)
    ensures
        match r {
            Some(i) => contains_at(haystack@, needle@, i as int) && forall|j: int|
                0 <= j < i ==> !contains_at(haystack@, needle@, j),
            None => !seq_contains(haystack@, needle@),
        },
{
    let hn = haystack.len();
    let nn = needle.len();
    if nn > hn {
        assert(forall|i: int| !contains_at(haystack@, needle@, i));
        return None;
    }
    if nn == 0 {
        assert(haystack@.subrange(0, 0) =~= needle@);
        assert(contains_at(haystack@, needle@, 0));
        return Some(0);
    }
    let mut i: usize = 0;
    while i <= hn - nn
        invariant
            1 <= nn <= hn == haystack@.len(),
            nn == needle@.len(),
            i <= hn - nn + 1,
            forall|j: int| 0 <= j < i ==> !contains_at(haystack@, needle@, j),
        decreases hn - i,
    {
        let mut k: usize = 0;
        let mut found: bool = true;
        while found && k < nn
            invariant
                nn <= hn == haystack@.len(),
                nn == needle@.len(),
                i + nn <= hn,
                k <= nn,
                found ==> haystack@.subrange(i as int, i + k) =~= needle@.subrange(0, k as int),
                !found ==> !contains_at(haystack@, needle@, i as int),
            decreases nn - k + (if found { 1int } else { 0int }),
        {
            if haystack[i + k] != needle[k] {
                assert(!contains_at(haystack@, needle@, i as int)) by {
                    if contains_at(haystack@, needle@, i as int) {
                        assert(haystack@.subrange(i as int, i + nn)[k as int] == needle@[k as int]);
                    }
                }
                found = false;
            } else {
                assert(haystack@.subrange(i as int, i + k + 1) =~= haystack@.subrange(
                    i as int,
                    i + k,
                ).push(haystack@[i + k]));
                assert(needle@.subrange(0, k as int + 1) =~= needle@.subrange(0, k as int).push(
                    needle@[k as int],
                ));
                k += 1;
            }
        }
        if found {
            assert(haystack@.subrange(i as int, i + nn) =~= needle@);
            assert(contains_at(haystack@, needle@, i as int));
            return Some(i);
        }
        i += 1;
    }
    assert(forall|j: int| i <= j ==> !contains_at(haystack@, needle@, j));
    None
}

/// Whether one text value occurs inside another as a contiguous run of
/// characters. No trimming is applied on either side.
pub fn str_contains(hay: &str, needle: &str) -> (r: bool)
    ensures
        r == seq_contains(hay@, needle@),
{
    let h = chars_of(hay);
    let n = chars_of(needle);
    let hn = h.len();
    let nn = n.len();
    if nn > hn {
        assert(forall|i: int| !contains_at(hay@, needle@, i));
        return false;
    }
    if nn == 0 {
        assert(hay@.subrange(0, 0) =~= needle@);
        assert(contains_at(hay@, needle@, 0));
        return true;
    }
    let mut i: usize = 0;
    while i <= hn - nn
        invariant
            h@ == hay@,
            n@ == needle@,
            1 <= nn <= hn == hay@.len(),
            nn == needle@.len(),
            i <= hn - nn + 1,
            forall|j: int| 0 <= j < i ==> !contains_at(hay@, needle@, j),
        decreases hn - i,
    {
        let mut k: usize = 0;
        let mut found: bool = true;
        while found && k < nn
            invariant
                h@ == hay@,
                n@ == needle@,
                nn <= hn == hay@.len(),
                nn == needle@.len(),
                i + nn <= hn,
                k <= nn,
                found ==> hay@.subrange(i as int, i + k) =~= needle@.subrange(0, k as int),
                !found ==> !contains_at(hay@, needle@, i as int),
            decreases nn - k + (if found { 1int } else { 0int }),
        {
            if h[i + k] != n[k] {
                assert(!contains_at(hay@, needle@, i as int)) by {
                    if contains_at(hay@, needle@, i as int) {
                        assert(hay@.subrange(i as int, i + nn)[k as int] == needle@[k as int]);
                    }
                }
                found = false;
            } else {
                assert(hay@.subrange(i as int, i + k + 1) =~= hay@.subrange(i as int, i + k).push(
                    hay@[i + k],
                ));
                assert(needle@.subrange(0, k as int + 1) =~= needle@.subrange(0, k as int).push(
                    needle@[k as int],
                ));
                k += 1;
            }
        }
        if found {
            assert(hay@.subrange(i as int, i + nn) =~= needle@);
            assert(contains_at(hay@, needle@, i as int));
            return true;
        }
        i += 1;
    }
    assert(forall|j: int| i <= j ==> !contains_at(hay@, needle@, j));
    false
}

/// The pieces of a text value, split on a separator character. A text with n
/// separators has n + 1 pieces; the separators belong to no piece.
pub open spec fn split_sep_spec(s: Seq<char>, sep: char) -> Seq<Seq<char>>
    decreases s.len(),
{
    if s.len() == 0 {
        seq![Seq::<char>::empty()]
    } else if s[0] == sep {
        seq![Seq::<char>::empty()] + split_sep_spec(s.drop_first(), sep)
    } else {
        let rest = split_sep_spec(s.drop_first(), sep);
        seq![seq![s[0]] + rest[0]] + rest.drop_first()
    }
}

/// The lines of a text value, split on the newline character.
pub open spec fn split_lines_spec(s: Seq<char>) -> Seq<Seq<char>> {
    split_sep_spec(s, '\n')
}

/// The concatenation of a sequence of pieces with a separator between each
/// pair.
pub open spec fn join_sep(ls: Seq<Seq<char>>, sep: char) -> Seq<char>
    decreases ls.len(),
{
    if ls.len() == 0 {
        Seq::empty()
    } else if ls.len() == 1 {
        ls[0]
    } else {
        ls[0] + seq![sep] + join_sep(ls.drop_first(), sep)
    }
}

pub proof fn lemma_split_sep_len(s: Seq<char>, sep: char)
    ensures
        split_sep_spec(s, sep).len() >= 1,
    decreases s.len(),
{
    if s.len() == 0 {
    } else {
        lemma_split_sep_len(s.drop_first(), sep);
    }
}

/// Joining the pieces of a split text restores the text: splitting loses
/// nothing, so equal piece sequences come only from equal texts.
pub proof fn lemma_split_sep_join(s: Seq<char>, sep: char)
    ensures
        join_sep(split_sep_spec(s, sep), sep) == s,
    decreases s.len(),
{
    if s.len() == 0 {
        assert(join_sep(split_sep_spec(s, sep), sep) =~= s);
    } else if s[0] == sep {
        let rest = split_sep_spec(s.drop_first(), sep);
        lemma_split_sep_len(s.drop_first(), sep);
        lemma_split_sep_join(s.drop_first(), sep);
        let whole = seq![Seq::<char>::empty()] + rest;
        assert(whole.drop_first() =~= rest);
        assert(whole[0] =~= Seq::<char>::empty());
        assert(join_sep(whole, sep) =~= s);
    } else {
        let rest = split_sep_spec(s.drop_first(), sep);
        lemma_split_sep_len(s.drop_first(), sep);
        lemma_split_sep_join(s.drop_first(), sep);
        let whole = seq![seq![s[0]] + rest[0]] + rest.drop_first();
        if rest.len() == 1 {
            assert(whole.len() == 1);
            assert(join_sep(rest, sep) == rest[0]);
            assert(join_sep(whole, sep) == seq![s[0]] + rest[0]);
            assert(join_sep(whole, sep) =~= s);
        } else {
            assert(whole.len() >= 2);
            assert(whole.drop_first() =~= rest.drop_first());
            assert(join_sep(rest, sep) == rest[0] + seq![sep] + join_sep(rest.drop_first(), sep));
            assert(join_sep(whole, sep) == whole[0] + seq![sep] + join_sep(
                whole.drop_first(),
                sep,
            ));
            assert(whole[0] == seq![s[0]] + rest[0]);
            assert(join_sep(whole, sep) =~= seq![s[0]] + (rest[0] + seq![sep] + join_sep(
                rest.drop_first(),
                sep,
            )));
            assert(join_sep(whole, sep) =~= seq![s[0]] + join_sep(rest, sep));
            assert(join_sep(whole, sep) =~= s);
        }
    }
}

/// Two texts with the same pieces under the same separator are the same text.
pub proof fn lemma_split_sep_injective(a: Seq<char>, b: Seq<char>, sep: char)
    requires
        split_sep_spec(a, sep) == split_sep_spec(b, sep),
    ensures
        a == b,
{
    lemma_split_sep_join(a, sep);
    lemma_split_sep_join(b, sep);
}

proof fn lemma_split_sep_at(s: Seq<char>, sep: char, i: int)
    requires
        0 <= i < s.len(),
        s[i] == sep,
        forall|j: int| 0 <= j < i ==> s[j] != sep,
    ensures
        split_sep_spec(s, sep) == seq![s.subrange(0, i)] + split_sep_spec(
            s.subrange(i + 1, s.len() as int),
            sep,
        ),
    decreases i,
{
    if i == 0 {
        assert(s.subrange(0, 0) =~= Seq::<char>::empty());
        assert(s.subrange(1, s.len() as int) =~= s.drop_first());
        assert(split_sep_spec(s, sep) =~= seq![s.subrange(0, 0)] + split_sep_spec(
            s.subrange(1, s.len() as int),
            sep,
        ));
    } else {
        let t = s.drop_first();
        lemma_split_sep_at(t, sep, i - 1);
        let rest = split_sep_spec(t, sep);
        assert(t.subrange(0, i - 1) =~= s.subrange(1, i));
        assert(t.subrange(i, t.len() as int) =~= s.subrange(i + 1, s.len() as int));
        assert(rest[0] == s.subrange(1, i));
        assert(seq![s[0]] + rest[0] =~= s.subrange(0, i));
        assert(rest.drop_first() =~= split_sep_spec(s.subrange(i + 1, s.len() as int), sep));
        assert(split_sep_spec(s, sep) =~= seq![s.subrange(0, i)] + split_sep_spec(
            s.subrange(i + 1, s.len() as int),
            sep,
        ));
    }
}

proof fn lemma_split_sep_whole(s: Seq<char>, sep: char)
    requires
        forall|j: int| 0 <= j < s.len() ==> s[j] != sep,
    ensures
        split_sep_spec(s, sep) == seq![s],
    decreases s.len(),
{
    if s.len() == 0 {
        assert(s =~= Seq::<char>::empty());
        assert(split_sep_spec(s, sep) =~= seq![s]);
    } else {
        assert(s[0] != sep);
        lemma_split_sep_whole(s.drop_first(), sep);
        let rest = split_sep_spec(s.drop_first(), sep);
        assert(rest == seq![s.drop_first()]);
        assert(rest.drop_first() =~= Seq::<Seq<char>>::empty());
        assert(seq![s[0]] + rest[0] =~= s);
        assert(split_sep_spec(s, sep) =~~= seq![s]);
    }
}

/// Split a text value on a separator character.
pub fn split_sep(s: &str, sep: char) -> (r: Vec<String>)
    ensures
        r@.map_values(|l: String| l@) == split_sep_spec(s@, sep),
        r@.len() >= 1,
{
    let n = s.unicode_len();
    let mut r: Vec<String> = Vec::new();
    proof {
        assert(s@.subrange(0, n as int) =~= s@);
        assert(r@.map_values(|l: String| l@) =~= Seq::<Seq<char>>::empty());
    }
    let mut start: usize = 0;
    let mut i: usize = 0;
    while i < n
        invariant
            n == s@.len(),
            start <= i <= n,
            forall|j: int| start <= j < i ==> s@[j] != sep,
            split_sep_spec(s@, sep) =~= r@.map_values(|l: String| l@) + split_sep_spec(
                s@.subrange(start as int, n as int),
                sep,
            ),
        decreases n - i,
    {
        if s.get_char(i) == sep {
            let line = s.substring_char(start, i).to_owned();
            proof {
                let tail = s@.subrange(start as int, n as int);
                assert(tail[i - start] == sep);
                assert(forall|j: int| 0 <= j < i - start ==> tail[j] != sep);
                lemma_split_sep_at(tail, sep, i - start);
                assert(tail.subrange(0, i - start) =~= s@.subrange(start as int, i as int));
                assert(tail.subrange(i - start + 1, tail.len() as int) =~= s@.subrange(
                    i as int + 1,
                    n as int,
                ));
                let old_map = r@.map_values(|l: String| l@);
                assert((r@ + seq![line]).map_values(|l: String| l@) =~= old_map + seq![line@]);
                assert(old_map + (seq![s@.subrange(start as int, i as int)] + split_sep_spec(
                    s@.subrange(i as int + 1, n as int),
                    sep,
                )) =~= (old_map + seq![line@]) + split_sep_spec(
                    s@.subrange(i as int + 1, n as int),
                    sep,
                ));
            }
            r.push(line);
            start = i + 1;
        }
        i += 1;
    }
    let last = s.substring_char(start, n).to_owned();
    proof {
        let tail = s@.subrange(start as int, n as int);
        lemma_split_sep_whole(tail, sep);
        let old_map = r@.map_values(|l: String| l@);
        assert((r@ + seq![last]).map_values(|l: String| l@) =~= old_map + seq![last@]);
        lemma_split_sep_len(s@, sep);
    }
    r.push(last);
    r
}

/// Split a text value into its lines, on the newline character.
pub fn split_lines(s: &str) -> (r: Vec<String>)
    ensures
        r@.map_values(|l: String| l@) == split_lines_spec(s@),
        r@.len() >= 1,
{
    split_sep(s, '\n')
}

/// The character for a single decimal digit.
pub open spec fn dec_digit(d: int) -> char {
    if d == 0 {
        '0'
    } else if d == 1 {
        '1'
    } else if d == 2 {
        '2'
    } else if d == 3 {
        '3'
    } else if d == 4 {
        '4'
    } else if d == 5 {
        '5'
    } else if d == 6 {
        '6'
    } else if d == 7 {
        '7'
    } else if d == 8 {
        '8'
    } else {
        '9'
    }
}

/// The decimal representation of a non-negative integer, without leading
/// zeroes (except for the single digit of zero itself).
pub open spec fn dec_rep(n: int) -> Seq<char>
    decreases n,
{
    if n < 10 {
        seq![dec_digit(n)]
    } else {
        dec_rep(n / 10).push(dec_digit(n % 10))
    }
}

/// The decimal representation of an integer, a minus sign before a negative
/// value's magnitude.
pub open spec fn dec_int_rep(v: int) -> Seq<char> {
    if v < 0 {
        seq!['-'] + dec_rep(-v)
    } else {
        dec_rep(v)
    }
}

fn digit_str(d: u64) -> (r: &'static str)
    requires
        d < 10,
    ensures
        r@ == seq![dec_digit(d as int)],
{
    proof {
        reveal_strlit("0");
        reveal_strlit("1");
        reveal_strlit("2");
        reveal_strlit("3");
        reveal_strlit("4");
        reveal_strlit("5");
        reveal_strlit("6");
        reveal_strlit("7");
        reveal_strlit("8");
        reveal_strlit("9");
    }
    let r: &'static str = if d == 0 {
        "0"
    } else if d == 1 {
        "1"
    } else if d == 2 {
        "2"
    } else if d == 3 {
        "3"
    } else if d == 4 {
        "4"
    } else if d == 5 {
        "5"
    } else if d == 6 {
        "6"
    } else if d == 7 {
        "7"
    } else if d == 8 {
        "8"
    } else {
        "9"
    };
    assert(r@ =~= seq![dec_digit(d as int)]);
    r
}

spec fn rev_digit_chars(ds: Seq<u64>) -> Seq<char>
    decreases ds.len(),
{
    if ds.len() == 0 {
        Seq::empty()
    } else {
        rev_digit_chars(ds.drop_first()) + seq![dec_digit(ds[0] as int)]
    }
}

proof fn lemma_rev_digit_chars_push(ds: Seq<u64>, d: u64)
    ensures
        rev_digit_chars(ds.push(d)) == seq![dec_digit(d as int)] + rev_digit_chars(ds),
    decreases ds.len(),
{
    if ds.len() == 0 {
        assert(ds.push(d).drop_first() =~= Seq::<u64>::empty());
        assert(ds.push(d)[0] == d);
        assert(rev_digit_chars(Seq::<u64>::empty()) =~= Seq::<char>::empty());
        assert(rev_digit_chars(ds.push(d)) == rev_digit_chars(ds.push(d).drop_first())
            + seq![dec_digit(ds.push(d)[0] as int)]);
        assert(rev_digit_chars(ds.push(d)) =~= seq![dec_digit(d as int)] + rev_digit_chars(ds));
    } else {
        assert(ds.push(d).drop_first() =~= ds.drop_first().push(d));
        lemma_rev_digit_chars_push(ds.drop_first(), d);
        assert(ds.push(d)[0] == ds[0]);
        assert(rev_digit_chars(ds.push(d)) == rev_digit_chars(ds.push(d).drop_first())
            + seq![dec_digit(ds[0] as int)]);
        assert(rev_digit_chars(ds.push(d)) =~= (seq![dec_digit(d as int)] + rev_digit_chars(
            ds.drop_first(),
        )) + seq![dec_digit(ds[0] as int)]);
        assert(rev_digit_chars(ds.push(d)) =~= seq![dec_digit(d as int)] + rev_digit_chars(ds));
    }
}

/// Render a non-negative integer in decimal.
pub fn u64_to_string(v: u64) -> (r: String)
    ensures
        r@ == dec_rep(v as int),
{
    let mut digits: Vec<u64> = Vec::new();
    let mut m: u64 = v;
    proof {
        assert(rev_digit_chars(digits@) =~= Seq::<char>::empty());
        assert(dec_rep(v as int) =~= dec_rep(m as int) + rev_digit_chars(digits@));
    }
    while m >= 10
        invariant
            dec_rep(v as int) == dec_rep(m as int) + rev_digit_chars(digits@),
            forall|j: int| 0 <= j < digits@.len() ==> digits@[j] < 10,
        decreases m,
    {
        let d = m % 10;
        proof {
            lemma_rev_digit_chars_push(digits@, d);
            assert(dec_rep(m as int) == dec_rep(m as int / 10).push(dec_digit(m as int % 10)));
            assert(dec_rep(m as int / 10).push(dec_digit(d as int)) =~= dec_rep(m as int / 10)
                + seq![dec_digit(d as int)]);
            assert(dec_rep(v as int) =~= dec_rep(m as int / 10) + rev_digit_chars(
                digits@.push(d),
            ));
        }
        digits.push(d);
        m = m / 10;
    }
    let mut out: String = digit_str(m).to_owned();
    proof {
        assert(digits@.subrange(digits@.len() as int, digits@.len() as int) =~= Seq::<u64>::empty());
        assert(out@ =~= dec_rep(m as int) + rev_digit_chars(
            digits@.subrange(digits@.len() as int, digits@.len() as int),
        ));
    }
    let mut i: usize = digits.len();
    while i > 0
        invariant
            i <= digits@.len(),
            forall|j: int| 0 <= j < digits@.len() ==> digits@[j] < 10,
            out@ == dec_rep(m as int) + rev_digit_chars(
                digits@.subrange(i as int, digits@.len() as int),
            ),
        decreases i,
    {
        let d = digits[i - 1];
        out.append(digit_str(d));
        proof {
            let tail = digits@.subrange(i - 1, digits@.len() as int);
            assert(tail.drop_first() =~= digits@.subrange(i as int, digits@.len() as int));
            assert(rev_digit_chars(tail) == rev_digit_chars(tail.drop_first()) + seq![dec_digit(
                d as int,
            )]);
        }
        i -= 1;
    }
    proof {
        assert(digits@.subrange(0, digits@.len() as int) =~= digits@);
        assert(out@ =~= dec_rep(v as int));
    }
    out
}

/// Render a signed integer in decimal.
pub fn i32_to_string(v: i32) -> (r: String)
    ensures
        r@ == dec_int_rep(v as int),
{
    if v < 0 {
        let mag: u64 = (-(v as i64)) as u64;
        let mut out: String = String::new();
        proof {
            reveal_strlit("-");
        }
        out.append("-");
        let rest = u64_to_string(mag);
        out.append(rest.as_str());
        assert(out@ =~= dec_int_rep(v as int));
        out
    } else {
        u64_to_string(v as u64)
    }
}

pub open spec fn bytes_rep_inner(bs: Seq<u8>) -> Seq<char>
    decreases bs.len(),
{
    if bs.len() == 0 {
        Seq::empty()
    } else if bs.len() == 1 {
        dec_rep(bs[0] as int)
    } else {
        dec_rep(bs[0] as int) + seq![',', ' '] + bytes_rep_inner(bs.drop_first())
    }
}

/// The rendering of a byte sequence as a bracketed, comma-separated list of
/// decimal values.
pub open spec fn bytes_rep(bs: Seq<u8>) -> Seq<char> {
    seq!['['] + bytes_rep_inner(bs) + seq![']']
}

proof fn lemma_bytes_rep_inner_push(bs: Seq<u8>, b: u8)
    ensures
        bs.len() == 0 ==> bytes_rep_inner(bs.push(b)) == dec_rep(b as int),
        bs.len() > 0 ==> bytes_rep_inner(bs.push(b)) == bytes_rep_inner(bs) + seq![',', ' ']
            + dec_rep(b as int),
    decreases bs.len(),
{
    if bs.len() == 0 {
        assert(bytes_rep_inner(bs.push(b)) =~= dec_rep(b as int));
    } else if bs.len() == 1 {
        assert(bs.push(b).drop_first() =~= seq![b]);
        assert(bytes_rep_inner(seq![b]) == dec_rep(b as int));
        assert(bytes_rep_inner(bs.push(b)) =~= bytes_rep_inner(bs) + seq![',', ' '] + dec_rep(
            b as int,
        ));
    } else {
        assert(bs.push(b).drop_first() =~= bs.drop_first().push(b));
        lemma_bytes_rep_inner_push(bs.drop_first(), b);
        assert(bytes_rep_inner(bs.push(b)) =~= bytes_rep_inner(bs) + seq![',', ' '] + dec_rep(
            b as int,
        ));
    }
}

/// Render a byte sequence the way a byte list prints: bracketed decimal
/// values separated by commas.
pub fn bytes_to_string(bs: &[u8]) -> (r: String)
    ensures
        r@ == bytes_rep(bs@),
{
    proof {
        reveal_strlit("[");
        reveal_strlit("]");
        reveal_strlit(", ");
    }
    let mut out: String = String::new();
    out.append("[");
    let n = bs.len();
    let mut i: usize = 0;
    proof {
        assert(bs@.subrange(0, 0) =~= Seq::<u8>::empty());
        assert(out@ =~= seq!['['] + bytes_rep_inner(bs@.subrange(0, 0)));
    }
    while i < n
        invariant
            n == bs@.len(),
            i <= n,
            out@ == seq!['['] + bytes_rep_inner(bs@.subrange(0, i as int)),
        decreases n - i,
    {
        if i > 0 {
            out.append(", ");
        }
        let ds = u64_to_string(bs[i] as u64);
        out.append(ds.as_str());
        proof {
            reveal_strlit(", ");
            assert(", "@ =~= seq![',', ' ']);
            let pre = bs@.subrange(0, i as int);
            let b = bs@[i as int];
            assert(ds@ == dec_rep(b as int));
            assert(pre.push(b) =~= bs@.subrange(0, i + 1 as int));
            lemma_bytes_rep_inner_push(pre, b);
            if i == 0 {
                assert(pre.len() == 0);
                assert(out@ =~= seq!['['] + bytes_rep_inner(pre.push(b)));
            } else {
                assert(out@ =~= seq!['['] + (bytes_rep_inner(pre) + seq![',', ' '] + dec_rep(
                    b as int,
                )));
                assert(out@ =~= seq!['['] + bytes_rep_inner(pre.push(b)));
            }
            assert(out@ =~= seq!['['] + bytes_rep_inner(bs@.subrange(0, i + 1 as int)));
        }
        i += 1;
    }
    out.append("]");
    proof {
        assert(bs@.subrange(0, n as int) =~= bs@);
        assert(out@ =~= bytes_rep(bs@));
    }
    out
}

/// The result of decoding arbitrary bytes as UTF-8, replacing invalid
/// sequences; a function of the bytes alone.
pub uninterp spec fn lossy_decode(bytes: Seq<u8>) -> Seq<char>;

/// Relies on `String::from_utf8_lossy`: the result depends on the bytes
/// alone, and bytes that are valid UTF-8 decode to exactly their character
/// sequence.
#[verifier::external_body]
pub(crate) fn decode_lossy(bytes: &[u8]) -> (r: String)
    ensures
        r@ == lossy_decode(bytes@),
        valid_utf8(bytes@) ==> r@ == decode_utf8(bytes@),
{
    String::from_utf8_lossy(bytes).into_owned()
}

} // verus!
