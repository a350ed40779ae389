//! Line-oriented edit scripts between two text values, computed with the
//! classic longest-common-subsequence alignment, and their colourised
//! rendering.

use vstd::prelude::*;
use vstd::string::*;
use crate::text::{split_lines, split_lines_spec, split_sep};

verus! {

/// One step of an edit script: a line present in both texts, only in the
/// actual text, or only in the expected text.
pub enum DiffOp {
    Same(String),
    Added(String),
    Removed(String),
}

impl Clone for DiffOp {
    fn clone(&self) -> (r: Self)
        ensures
            r == self,
    {
        match self {
            DiffOp::Same(l) => DiffOp::Same(l.clone()),
            DiffOp::Added(l) => DiffOp::Added(l.clone()),
            DiffOp::Removed(l) => DiffOp::Removed(l.clone()),
        }
    }
}

/// The lines of the expected text, read back out of an edit script: the
/// `Same` and `Removed` entries in order.
pub open spec fn expected_lines_of(ops: Seq<DiffOp>) -> Seq<Seq<char>>
    decreases ops.len(),
{
    if ops.len() == 0 {
        Seq::empty()
    } else {
        match ops[0] {
            DiffOp::Same(l) => seq![l@] + expected_lines_of(ops.drop_first()),
            DiffOp::Removed(l) => seq![l@] + expected_lines_of(ops.drop_first()),
            DiffOp::Added(_) => expected_lines_of(ops.drop_first()),
        }
    }
}

/// The lines of the actual text, read back out of an edit script: the
/// `Same` and `Added` entries in order.
pub open spec fn actual_lines_of(ops: Seq<DiffOp>) -> Seq<Seq<char>>
    decreases ops.len(),
{
    if ops.len() == 0 {
        Seq::empty()
    } else {
        match ops[0] {
            DiffOp::Same(l) => seq![l@] + actual_lines_of(ops.drop_first()),
            DiffOp::Added(l) => seq![l@] + actual_lines_of(ops.drop_first()),
            DiffOp::Removed(_) => actual_lines_of(ops.drop_first()),
        }
    }
}

/// An edit script with no differences: every entry is `Same`.
pub open spec fn all_same(ops: Seq<DiffOp>) -> bool {
    forall|i: int| 0 <= i < ops.len() ==> ops[i] is Same
}

/// The number of `Added` entries in an edit script.
pub open spec fn count_added(ops: Seq<DiffOp>) -> int
    decreases ops.len(),
{
    if ops.len() == 0 {
        0
    } else {
        (if ops[0] is Added {
            1int
        } else {
            0int
        }) + count_added(ops.drop_first())
    }
}

/// The number of `Removed` entries in an edit script.
pub open spec fn count_removed(ops: Seq<DiffOp>) -> int
    decreases ops.len(),
{
    if ops.len() == 0 {
        0
    } else {
        (if ops[0] is Removed {
            1int
        } else {
            0int
        }) + count_removed(ops.drop_first())
    }
}

/// The number of `Same` entries in an edit script.
pub open spec fn count_same(ops: Seq<DiffOp>) -> int
    decreases ops.len(),
{
    if ops.len() == 0 {
        0
    } else {
        (if ops[0] is Same {
            1int
        } else {
            0int
        }) + count_same(ops.drop_first())
    }
}

/// The length of a longest common subsequence of two line sequences: the
/// most lines a minimal edit script can keep.
pub open spec fn lcs_len(a: Seq<Seq<char>>, b: Seq<Seq<char>>) -> int
    decreases a.len() + b.len(),
{
    if a.len() == 0 || b.len() == 0 {
        0
    } else if a.last() == b.last() {
        1 + lcs_len(a.drop_last(), b.drop_last())
    } else {
        let x = lcs_len(a.drop_last(), b);
        let y = lcs_len(a, b.drop_last());
        if x >= y {
            x
        } else {
            y
        }
    }
}

/// Every entry of an edit script is a kept, an added, or a removed line.
pub proof fn lemma_counts_partition(ops: Seq<DiffOp>)
    ensures
        count_same(ops) + count_added(ops) + count_removed(ops) == ops.len(),
    decreases ops.len(),
{
    if ops.len() == 0 {
    } else {
        lemma_counts_partition(ops.drop_first());
    }
}

/// An all-`Same` edit script reads back the same lines on both sides.
pub proof fn lemma_all_same_lines(ops: Seq<DiffOp>)
    requires
        all_same(ops),
    ensures
        expected_lines_of(ops) == actual_lines_of(ops),
    decreases ops.len(),
{
    if ops.len() == 0 {
    } else {
        assert(ops[0] is Same);
        assert(all_same(ops.drop_first()));
        lemma_all_same_lines(ops.drop_first());
    }
}

/// The expected side of a script has one line per `Same` or `Removed` entry.
pub proof fn lemma_expected_len(ops: Seq<DiffOp>)
    ensures
        expected_lines_of(ops).len() == ops.len() - count_added(ops),
        count_added(ops) >= 0,
        count_added(ops) <= ops.len(),
    decreases ops.len(),
{
    if ops.len() == 0 {
    } else {
        lemma_expected_len(ops.drop_first());
    }
}

/// The actual side of a script has one line per `Same` or `Added` entry.
pub proof fn lemma_actual_len(ops: Seq<DiffOp>)
    ensures
        actual_lines_of(ops).len() == ops.len() - count_removed(ops),
        count_removed(ops) >= 0,
        count_removed(ops) <= ops.len(),
    decreases ops.len(),
{
    if ops.len() == 0 {
    } else {
        lemma_actual_len(ops.drop_first());
    }
}

proof fn lemma_not_all_same_counts(ops: Seq<DiffOp>)
    requires
        !all_same(ops),
    ensures
        count_added(ops) + count_removed(ops) >= 1,
    decreases ops.len(),
{
    if ops.len() == 0 {
    } else {
        lemma_expected_len(ops.drop_first());
        lemma_actual_len(ops.drop_first());
        if ops[0] is Same {
            assert(!all_same(ops.drop_first())) by {
                let i = choose|i: int| 0 <= i < ops.len() && !(ops[i] is Same);
                assert(ops.drop_first()[i - 1] == ops[i]);
            }
            lemma_not_all_same_counts(ops.drop_first());
        }
    }
}

/// A mismatch between two texts always shows in the edit script: at least
/// one line was added or removed.
pub proof fn lemma_unequal_diff(ops: Seq<DiffOp>)
    requires
        expected_lines_of(ops) != actual_lines_of(ops),
    ensures
        count_added(ops) + count_removed(ops) >= 1,
{
    if all_same(ops) {
        lemma_all_same_lines(ops);
    }
    lemma_not_all_same_counts(ops);
}

/// A mismatch between two texts with the same number of lines shows on both
/// sides of the edit script: at least one line was added and at least one
/// removed.
pub proof fn lemma_unequal_same_len_diff(ops: Seq<DiffOp>)
    requires
        expected_lines_of(ops) != actual_lines_of(ops),
        expected_lines_of(ops).len() == actual_lines_of(ops).len(),
    ensures
        count_added(ops) >= 1,
        count_removed(ops) >= 1,
        count_added(ops) == count_removed(ops),
{
    lemma_expected_len(ops);
    lemma_actual_len(ops);
    if all_same(ops) {
        lemma_all_same_lines(ops);
    }
    lemma_not_all_same_counts(ops);
}

/// Compute a line-level edit script between the expected and the actual
/// lines, aligned on a longest common subsequence.
///
/// The `Same` and `Removed` entries restore the expected lines; the `Same`
/// and `Added` entries restore the actual lines; the script is free of
/// `Added` and `Removed` entries exactly when the two line sequences are
/// equal; and the script is minimal: it keeps as many lines as a longest
/// common subsequence, so its added and removed entries together number
/// exactly the edit distance.
pub fn diff_lines(expected: &Vec<String>, actual: &Vec<String>) -> (ops: Vec<DiffOp>)
    ensures
        expected_lines_of(ops@) == expected@.map_values(|l: String| l@),
        actual_lines_of(ops@) == actual@.map_values(|l: String| l@),
        all_same(ops@) <==> expected@.map_values(|l: String| l@) == actual@.map_values(
            |l: String| l@,
        ),
        count_same(ops@) == lcs_len(
            expected@.map_values(|l: String| l@),
            actual@.map_values(|l: String| l@),
        ),
        count_added(ops@) + count_removed(ops@) == expected@.len() + actual@.len() - 2 * lcs_len(
            expected@.map_values(|l: String| l@),
            actual@.map_values(|l: String| l@),
        ),
{
    let ghost exp_map = expected@.map_values(|l: String| l@);
    let ghost act_map = actual@.map_values(|l: String| l@);
    let n = expected.len();
    let m = actual.len();

    // Table of longest-common-subsequence lengths over prefixes.
    let mut dp: Vec<Vec<usize>> = Vec::new();
    while dp.len() <= n
        invariant
            n == expected@.len(),
            m == actual@.len(),
            exp_map == expected@.map_values(|l: String| l@),
            act_map == actual@.map_values(|l: String| l@),
            dp@.len() <= n + 1,
            forall|r: int| 0 <= r < dp@.len() ==> dp@[r].len() == m + 1,
            forall|r: int, c: int|
                0 <= r < dp@.len() && 0 <= c <= m ==> #[trigger] dp@[r][c] <= r,
            forall|r: int, c: int|
                0 <= r < dp@.len() && 0 <= c <= m ==> #[trigger] dp@[r][c] as int == lcs_len(
                    exp_map.subrange(0, r),
                    act_map.subrange(0, c),
                ),
        decreases n + 1 - dp@.len(),
    {
        let i0 = dp.len();
        let mut row: Vec<usize> = Vec::new();
        while row.len() <= m
            invariant
                n == expected@.len(),
                m == actual@.len(),
                exp_map == expected@.map_values(|l: String| l@),
                act_map == actual@.map_values(|l: String| l@),
                i0 == dp@.len() <= n,
                row@.len() <= m + 1,
                forall|r: int| 0 <= r < dp@.len() ==> dp@[r].len() == m + 1,
                forall|r: int, c: int|
                    0 <= r < dp@.len() && 0 <= c <= m ==> #[trigger] dp@[r][c] <= r,
                forall|r: int, c: int|
                    0 <= r < dp@.len() && 0 <= c <= m ==> #[trigger] dp@[r][c] as int == lcs_len(
                        exp_map.subrange(0, r),
                        act_map.subrange(0, c),
                    ),
                forall|c: int| 0 <= c < row@.len() ==> #[trigger] row@[c] <= i0,
                forall|c: int|
                    0 <= c < row@.len() ==> #[trigger] row@[c] as int == lcs_len(
                        exp_map.subrange(0, i0 as int),
                        act_map.subrange(0, c),
                    ),
            decreases m + 1 - row@.len(),
        {
            let j0 = row.len();
            let ghost ep = exp_map.subrange(0, i0 as int);
            let ghost ap = act_map.subrange(0, j0 as int);
            let v: usize = if i0 == 0 || j0 == 0 {
                proof {
                    assert(lcs_len(ep, ap) == 0);
                }
                0
            } else if expected[i0 - 1] == actual[j0 - 1] {
                proof {
                    assert(ep.last() == exp_map[i0 - 1]);
                    assert(ap.last() == act_map[j0 - 1]);
                    assert(ep.drop_last() =~= exp_map.subrange(0, i0 - 1));
                    assert(ap.drop_last() =~= act_map.subrange(0, j0 - 1));
                    assert(lcs_len(ep, ap) == 1 + lcs_len(
                        exp_map.subrange(0, i0 - 1),
                        act_map.subrange(0, j0 - 1),
                    ));
                }
                dp[i0 - 1][j0 - 1] + 1
            } else {
                proof {
                    assert(ep.last() == exp_map[i0 - 1]);
                    assert(ap.last() == act_map[j0 - 1]);
                    assert(ep.drop_last() =~= exp_map.subrange(0, i0 - 1));
                    assert(ap.drop_last() =~= act_map.subrange(0, j0 - 1));
                    assert(lcs_len(ep, ap) == if lcs_len(exp_map.subrange(0, i0 - 1), ap)
                        >= lcs_len(ep, act_map.subrange(0, j0 - 1)) {
                        lcs_len(exp_map.subrange(0, i0 - 1), ap)
                    } else {
                        lcs_len(ep, act_map.subrange(0, j0 - 1))
                    });
                }
                let a = dp[i0 - 1][j0];
                let b = row[j0 - 1];
                if a >= b {
                    a
                } else {
                    b
                }
            };
            row.push(v);
        }
        dp.push(row);
    }

    // Walk the table back from the full lengths, emitting the script from
    // its tail to its head.
    let mut ops: Vec<DiffOp> = Vec::new();
    let mut i: usize = n;
    let mut j: usize = m;
    proof {
        assert(exp_map.subrange(n as int, n as int) =~= Seq::<Seq<char>>::empty());
        assert(act_map.subrange(m as int, m as int) =~= Seq::<Seq<char>>::empty());
        assert(exp_map.subrange(0, n as int) =~= exp_map);
        assert(act_map.subrange(0, m as int) =~= act_map);
    }
    while i > 0 || j > 0
        invariant
            n == expected@.len(),
            m == actual@.len(),
            exp_map == expected@.map_values(|l: String| l@),
            act_map == actual@.map_values(|l: String| l@),
            dp@.len() == n + 1,
            forall|r: int| 0 <= r <= n ==> dp@[r].len() == m + 1,
            forall|r: int, c: int|
                0 <= r <= n && 0 <= c <= m ==> #[trigger] dp@[r][c] as int == lcs_len(
                    exp_map.subrange(0, r),
                    act_map.subrange(0, c),
                ),
            i <= n,
            j <= m,
            expected_lines_of(ops@) == exp_map.subrange(i as int, n as int),
            actual_lines_of(ops@) == act_map.subrange(j as int, m as int),
            count_same(ops@) + lcs_len(
                exp_map.subrange(0, i as int),
                act_map.subrange(0, j as int),
            ) == lcs_len(exp_map, act_map),
            exp_map == act_map ==> i == j && all_same(ops@),
        decreases i + j,
    {
        let ghost ep = exp_map.subrange(0, i as int);
        let ghost ap = act_map.subrange(0, j as int);
        if i > 0 && j > 0 && expected[i - 1] == actual[j - 1] {
            let op = DiffOp::Same(expected[i - 1].clone());
            proof {
                let pre = seq![op] + ops@;
                assert(ops@.insert(0, op) =~= pre);
                assert(pre.drop_first() =~= ops@);
                assert(expected_lines_of(pre) =~= seq![exp_map[i - 1]] + expected_lines_of(ops@));
                assert(seq![exp_map[i - 1]] + exp_map.subrange(i as int, n as int)
                    =~= exp_map.subrange(i - 1, n as int));
                assert(actual_lines_of(pre) =~= seq![act_map[j - 1]] + actual_lines_of(ops@));
                assert(seq![act_map[j - 1]] + act_map.subrange(j as int, m as int)
                    =~= act_map.subrange(j - 1, m as int));
                assert(count_same(pre) == 1 + count_same(ops@));
                assert(ep.last() == exp_map[i - 1]);
                assert(ap.last() == act_map[j - 1]);
                assert(ep.drop_last() =~= exp_map.subrange(0, i - 1));
                assert(ap.drop_last() =~= act_map.subrange(0, j - 1));
                assert(lcs_len(ep, ap) == 1 + lcs_len(
                    exp_map.subrange(0, i - 1),
                    act_map.subrange(0, j - 1),
                ));
            }
            ops.insert(0, op);
            i -= 1;
            j -= 1;
        } else if j > 0 && (i == 0 || dp[i][j - 1] >= dp[i - 1][j]) {
            proof {
                if exp_map == act_map {
                    assert(i == j);
                    assert(exp_map[i - 1] == act_map[j - 1]);
                    assert(false);
                }
                if i == 0 {
                    assert(lcs_len(ep, ap) == 0);
                    assert(lcs_len(ep, act_map.subrange(0, j - 1)) == 0);
                } else {
                    assert(ep.last() == exp_map[i - 1]);
                    assert(ap.last() == act_map[j - 1]);
                    assert(ep.drop_last() =~= exp_map.subrange(0, i - 1));
                    assert(ap.drop_last() =~= act_map.subrange(0, j - 1));
                    assert(dp@[i as int][j - 1] as int == lcs_len(
                        ep,
                        act_map.subrange(0, j - 1),
                    ));
                    assert(dp@[i - 1][j as int] as int == lcs_len(
                        exp_map.subrange(0, i - 1),
                        ap,
                    ));
                    assert(lcs_len(ep, ap) == lcs_len(ep, act_map.subrange(0, j - 1)));
                }
            }
            let op = DiffOp::Added(actual[j - 1].clone());
            proof {
                let pre = seq![op] + ops@;
                assert(ops@.insert(0, op) =~= pre);
                assert(pre.drop_first() =~= ops@);
                assert(actual_lines_of(pre) =~= seq![act_map[j - 1]] + actual_lines_of(ops@));
                assert(seq![act_map[j - 1]] + act_map.subrange(j as int, m as int)
                    =~= act_map.subrange(j - 1, m as int));
                assert(expected_lines_of(pre) =~= expected_lines_of(ops@));
                assert(count_same(pre) == count_same(ops@));
            }
            ops.insert(0, op);
            j -= 1;
        } else {
            proof {
                assert(i > 0);
                if exp_map == act_map {
                    assert(i == j);
                    assert(exp_map[i - 1] == act_map[j - 1]);
                    assert(false);
                }
                if j == 0 {
                    assert(lcs_len(ep, ap) == 0);
                    assert(lcs_len(exp_map.subrange(0, i - 1), ap) == 0);
                } else {
                    assert(ep.last() == exp_map[i - 1]);
                    assert(ap.last() == act_map[j - 1]);
                    assert(ep.drop_last() =~= exp_map.subrange(0, i - 1));
                    assert(ap.drop_last() =~= act_map.subrange(0, j - 1));
                    assert(dp@[i as int][j - 1] as int == lcs_len(
                        ep,
                        act_map.subrange(0, j - 1),
                    ));
                    assert(dp@[i - 1][j as int] as int == lcs_len(
                        exp_map.subrange(0, i - 1),
                        ap,
                    ));
                    assert(lcs_len(ep, ap) == lcs_len(exp_map.subrange(0, i - 1), ap));
                }
            }
            let op = DiffOp::Removed(expected[i - 1].clone());
            proof {
                let pre = seq![op] + ops@;
                assert(ops@.insert(0, op) =~= pre);
                assert(pre.drop_first() =~= ops@);
                assert(expected_lines_of(pre) =~= seq![exp_map[i - 1]] + expected_lines_of(ops@));
                assert(seq![exp_map[i - 1]] + exp_map.subrange(i as int, n as int)
                    =~= exp_map.subrange(i - 1, n as int));
                assert(actual_lines_of(pre) =~= actual_lines_of(ops@));
                assert(count_same(pre) == count_same(ops@));
            }
            ops.insert(0, op);
            i -= 1;
        }
    }
    proof {
        assert(exp_map.subrange(0, n as int) =~= exp_map);
        assert(act_map.subrange(0, m as int) =~= act_map);
        assert(exp_map.subrange(0, 0) =~= Seq::<Seq<char>>::empty());
        assert(act_map.subrange(0, 0) =~= Seq::<Seq<char>>::empty());
        assert(lcs_len(Seq::<Seq<char>>::empty(), Seq::<Seq<char>>::empty()) == 0);
        if all_same(ops@) {
            lemma_all_same_lines(ops@);
        }
        lemma_counts_partition(ops@);
        lemma_expected_len(ops@);
        lemma_actual_len(ops@);
    }
    ops
}

/// The text carried by an edit-script entry.
pub open spec fn op_line(op: DiffOp) -> Seq<char> {
    match op {
        DiffOp::Same(l) => l@,
        DiffOp::Added(l) => l@,
        DiffOp::Removed(l) => l@,
    }
}

/// The rendering of an edit script without differences: each line behind a
/// single space, one line of output per line of input.
pub open spec fn render_same_spec(ops: Seq<DiffOp>) -> Seq<char>
    decreases ops.len(),
{
    if ops.len() == 0 {
        Seq::empty()
    } else {
        seq![' '] + op_line(ops[0]) + seq!['\n'] + render_same_spec(ops.drop_first())
    }
}

proof fn lemma_render_same_push(ops: Seq<DiffOp>, op: DiffOp)
    ensures
        render_same_spec(ops.push(op)) == render_same_spec(ops) + seq![' '] + op_line(op)
            + seq!['\n'],
    decreases ops.len(),
{
    if ops.len() == 0 {
        assert(ops =~= Seq::<DiffOp>::empty());
        assert(ops.push(op).drop_first() =~= ops);
        assert(ops.push(op)[0] == op);
        assert(render_same_spec(ops.push(op)) =~= render_same_spec(ops) + seq![' '] + op_line(op)
            + seq!['\n']);
    } else {
        assert(ops.push(op).drop_first() =~= ops.drop_first().push(op));
        lemma_render_same_push(ops.drop_first(), op);
        assert(ops.push(op)[0] == ops[0]);
        assert(render_same_spec(ops.push(op)) =~= render_same_spec(ops) + seq![' '] + op_line(op)
            + seq!['\n']);
    }
}

impl DiffOp {
    /// Whether this entry marks a line present only in the expected text.
    pub fn is_removed(&self) -> (r: bool)
        ensures
            r == (self is Removed),
    {
        matches!(self, DiffOp::Removed(_))
    }

    /// The text carried by this entry.
    pub fn line(&self) -> (r: &String)
        ensures
            r@ == op_line(*self),
    {
        match self {
            DiffOp::Same(l) => l,
            DiffOp::Added(l) => l,
            DiffOp::Removed(l) => l,
        }
    }
}

// Renders the changed words of an added line that follows a removed line:
// kept words plain green, new words highlighted, removed words omitted.
fn render_word_changes(out: &mut String, removed: &String, added: &String)
    ensures
        final(out)@.len() >= old(out)@.len(),
{
    let removed_words = split_sep(removed.as_str(), ' ');
    let added_words = split_sep(added.as_str(), ' ');
    let word_ops = diff_lines(&removed_words, &added_words);
    let mut i: usize = 0;
    while i < word_ops.len()
        invariant
            out@.len() >= old(out)@.len(),
        decreases word_ops@.len() - i,
    {
        let op = &word_ops[i];
        match op {
            DiffOp::Same(z) => {
                if z.as_str().unicode_len() > 0 {
                    out.append("\u{1b}[32m");
                    out.append(z.as_str());
                    out.append("\u{1b}[0m ");
                }
            },
            DiffOp::Added(z) => {
                if z.as_str().unicode_len() > 0 {
                    out.append("\u{1b}[7;32m");
                    out.append(z.as_str());
                    out.append("\u{1b}[0m ");
                }
            },
            DiffOp::Removed(_) => {},
        }
        i += 1;
    }
}

/// Render an edit script as a human-readable report: kept lines behind a
/// space, removed lines in red behind a minus, added lines in green behind a
/// plus, and an added line that directly replaces a removed one shown with
/// its changed words highlighted.
///
/// The report is empty exactly when the script is empty, and a script
/// without differences renders each line behind a single space.
pub fn render(ops: &Vec<DiffOp>) -> (r: String)
    ensures
        r@.len() == 0 <==> ops@.len() == 0,
        all_same(ops@) ==> r@ == render_same_spec(ops@),
{
    let mut out = String::new();
    proof {
        assert(ops@.subrange(0, 0) =~= Seq::<DiffOp>::empty());
    }
    let mut i: usize = 0;
    while i < ops.len()
        invariant
            i <= ops@.len(),
            i > 0 ==> out@.len() > 0,
            i == 0 ==> out@.len() == 0,
            all_same(ops@) ==> out@ == render_same_spec(ops@.subrange(0, i as int)),
        decreases ops@.len() - i,
    {
        let ghost prefix = ops@.subrange(0, i as int);
        let op = &ops[i];
        match op {
            DiffOp::Same(l) => {
                proof {
                    reveal_strlit(" ");
                    reveal_strlit("\n");
                }
                out.append(" ");
                out.append(l.as_str());
                out.append("\n");
                proof {
                    if all_same(ops@) {
                        lemma_render_same_push(prefix, *op);
                        assert(prefix.push(*op) =~= ops@.subrange(0, i + 1 as int));
                        assert(out@ =~= render_same_spec(ops@.subrange(0, i + 1 as int)));
                    }
                }
            },
            DiffOp::Removed(l) => {
                proof {
                    reveal_strlit("\u{1b}[31m-");
                }
                out.append("\u{1b}[31m-");
                out.append(l.as_str());
                out.append("\u{1b}[0m\n");
            },
            DiffOp::Added(l) => {
                if i > 0 && ops[i - 1].is_removed() {
                    proof {
                        reveal_strlit("\u{1b}[32m+\u{1b}[0m");
                    }
                    out.append("\u{1b}[32m+\u{1b}[0m");
                    render_word_changes(&mut out, ops[i - 1].line(), l);
                    out.append("\n");
                } else {
                    proof {
                        reveal_strlit("\u{1b}[2;32m+");
                    }
                    out.append("\u{1b}[2;32m+");
                    out.append(l.as_str());
                    out.append("\u{1b}[0m\n");
                }
                proof {
                    if all_same(ops@) {
                        assert(!(ops@[i as int] is Same));
                        assert(false);
                    }
                }
            },
        }
        i += 1;
    }
    proof {
        assert(ops@.subrange(0, ops@.len() as int) =~= ops@);
    }
    out
}

/// Compute the line-level edit script between two text values, split on the
/// newline character.
pub fn diff_texts(expected: &str, actual: &str) -> (ops: Vec<DiffOp>)
    ensures
        expected_lines_of(ops@) == split_lines_spec(expected@),
        actual_lines_of(ops@) == split_lines_spec(actual@),
        all_same(ops@) <==> expected@ == actual@,
        count_added(ops@) + count_removed(ops@) == split_lines_spec(expected@).len()
            + split_lines_spec(actual@).len() - 2 * lcs_len(
            split_lines_spec(expected@),
            split_lines_spec(actual@),
        ),
        ops@.len() >= 1,
{
    let exp_lines = split_lines(expected);
    let act_lines = split_lines(actual);
    let ops = diff_lines(&exp_lines, &act_lines);
    proof {
        if all_same(ops@) {
            crate::text::lemma_split_sep_injective(expected@, actual@, '\n');
        }
        lemma_expected_len(ops@);
    }
    ops
}

} // verus!
