//! Splitting source text into display lines: lines are separated by `'\n'`,
//! and a trailing `'\r'` is removed from each line. The diagnostic builder
//! uses these to find the text of the line a match starts on, and the number
//! of characters on all earlier lines.

use vstd::prelude::*;
use vstd::string::*;

verus! {

/// The first index at or after `from` holding `'\n'`, or the text length
/// when there is none.
pub open spec fn find_newline(s: Seq<char>, from: int) -> int
    decreases s.len() - from when 0 <= from <= s.len()
{
    if from >= s.len() {
        s.len() as int
    } else if s[from] == '\n' {
        from
    } else {
        find_newline(s, from + 1)
    }
}

/// Where `find_newline` lands: at or after `from`, within the text, on a
/// newline unless it ran off the end, with no newline before it.
pub proof fn lemma_find_newline(s: Seq<char>, from: int)
    requires
        0 <= from <= s.len(),
    ensures
        from <= find_newline(s, from) <= s.len(),
        find_newline(s, from) < s.len() ==> s[find_newline(s, from)] == '\n',
        forall|k: int| from <= k < find_newline(s, from) ==> s[k] != '\n',
    decreases s.len() - from,
{
    if from >= s.len() {
    } else if s[from] == '\n' {
    } else {
        lemma_find_newline(s, from + 1);
    }
}

/// One line with a trailing carriage return removed.
pub open spec fn strip_cr(l: Seq<char>) -> Seq<char> {
    if l.len() > 0 && l[l.len() - 1] == '\r' {
        l.drop_last()
    } else {
        l
    }
}

/// The display lines of `s` from index `from` on: split at `'\n'`, each
/// line stripped of a trailing carriage return. Text ending in a newline
/// yields no final empty line.
pub open spec fn lines_from(s: Seq<char>, from: int) -> Seq<Seq<char>>
    decreases s.len() - from when 0 <= from <= s.len() via lines_from_decreases
{
    if from >= s.len() {
        Seq::empty()
    } else {
        let j = find_newline(s, from);
        if j == s.len() {
            seq![strip_cr(s.subrange(from, j))]
        } else {
            seq![strip_cr(s.subrange(from, j))] + lines_from(s, j + 1)
        }
    }
}

#[via_fn]
proof fn lines_from_decreases(s: Seq<char>, from: int) {
    lemma_find_newline(s, from);
}

/// All display lines of the text.
pub open spec fn spec_lines(s: Seq<char>) -> Seq<Seq<char>> {
    lines_from(s, 0)
}

/// The views of a sequence of owned strings.
pub open spec fn views_of(v: Seq<String>) -> Seq<Seq<char>> {
    v.map_values(|x: String| x@)
}

/// The total character count of the first `k` lines; indices past the end
/// of the list contribute nothing.
pub open spec fn sum_line_lens(ls: Seq<Seq<char>>, k: int) -> int
    decreases k,
{
    if k <= 0 {
        0
    } else {
        sum_line_lens(ls, k - 1) + if k <= ls.len() {
            ls[k - 1].len() as int
        } else {
            0
        }
    }
}

/// Partial sums of line lengths grow with the prefix length.
pub proof fn lemma_sum_monotone(ls: Seq<Seq<char>>, k1: int, k2: int)
    requires
        k1 <= k2,
    ensures
        sum_line_lens(ls, k1) <= sum_line_lens(ls, k2),
    decreases k2 - k1,
{
    if k1 < k2 {
        lemma_sum_monotone(ls, k1, k2 - 1);
    }
}

/// Prepending one line shifts the partial sums by that line's length.
proof fn lemma_sum_cons(a: Seq<char>, ls: Seq<Seq<char>>, k: int)
    requires
        0 <= k <= ls.len(),
    ensures
        sum_line_lens(seq![a] + ls, k + 1) == a.len() + sum_line_lens(ls, k),
    decreases k,
{
    let cs = seq![a] + ls;
    if k == 0 {
        assert(sum_line_lens(cs, 1) == sum_line_lens(cs, 0) + cs[0].len());
    } else {
        lemma_sum_cons(a, ls, k - 1);
        assert(cs[k] == ls[k - 1]);
    }
}

/// The characters on the lines never outnumber the characters of the text
/// they were split from.
pub proof fn lemma_sum_bounded(s: Seq<char>, from: int, k: int)
    requires
        0 <= from <= s.len(),
        0 <= k <= lines_from(s, from).len(),
    ensures
        sum_line_lens(lines_from(s, from), k) <= s.len() - from,
    decreases s.len() - from,
{
    lemma_find_newline(s, from);
    if from >= s.len() {
    } else {
        let j = find_newline(s, from);
        let first = strip_cr(s.subrange(from, j));
        assert(first.len() <= j - from);
        if j == s.len() {
            if k > 0 {
                assert(lines_from(s, from) == seq![first]);
                assert(sum_line_lens(lines_from(s, from), 0) == 0);
                assert(sum_line_lens(lines_from(s, from), k) == first.len());
            }
        } else {
            let rest = lines_from(s, j + 1);
            if k == 0 {
            } else {
                lemma_sum_bounded(s, j + 1, k - 1);
                lemma_sum_cons(first, rest, k - 1);
            }
        }
    }
}

/// The index of the first `'\n'` at or after `from`, or the text length.
fn find_nl(s: &str, from: usize, n: usize) -> (r: usize)
    requires
        n == s@.len(),
        from <= n,
    ensures
        r as int == find_newline(s@, from as int),
{
    let mut j = from;
    while j < n
        invariant
            n == s@.len(),
            from <= j <= n,
            find_newline(s@, from as int) == find_newline(s@, j as int),
        decreases n - j,
    {
        if s.get_char(j) == '\n' {
            return j;
        }
        j += 1;
    }
    n
}

/// Splits the text into its display lines.
pub fn split_lines(s: &str) -> (r: Vec<String>)
    ensures
        views_of(r@) == spec_lines(s@),
{
    let n = s.unicode_len();
    let ghost full = spec_lines(s@);
    let ghost done: Seq<Seq<char>> = Seq::empty();
    let mut out: Vec<String> = Vec::new();
    let mut from: usize = 0;
    while from < n
        invariant
            n == s@.len(),
            0 <= from <= n,
            full == spec_lines(s@),
            full == done + lines_from(s@, from as int),
            out@.len() == done.len(),
            forall|i: int| 0 <= i < done.len() ==> (#[trigger] out@[i])@ == done[i],
        decreases n - from,
    {
        let j = find_nl(s, from, n);
        proof {
            lemma_find_newline(s@, from as int);
        }
        let line_end = if j > from && s.get_char(j - 1) == '\r' {
            j - 1
        } else {
            j
        };
        let line_ref = s.substring_char(from, line_end);
        let line = line_ref.to_owned();
        proof {
            assert(line@ =~= strip_cr(s@.subrange(from as int, j as int)));
        }
        out.push(line);
        proof {
            done = done + seq![strip_cr(s@.subrange(from as int, j as int))];
            if (j as int) < s@.len() {
                assert(lines_from(s@, from as int) == seq![
                    strip_cr(s@.subrange(from as int, j as int)),
                ] + lines_from(s@, j as int + 1));
            } else {
                assert(lines_from(s@, from as int) == seq![
                    strip_cr(s@.subrange(from as int, j as int)),
                ]);
            }
            assert(full =~= done + lines_from(
                s@,
                if j < n {
                    j as int + 1
                } else {
                    n as int
                },
            ));
        }
        from = if j < n {
            j + 1
        } else {
            n
        };
    }
    proof {
        assert(views_of(out@) =~= full);
    }
    out
}

/// The total character count of the first `k` lines, computed for one file.
pub fn chars_before(lines: &Vec<String>, k: usize) -> (r: usize)
    requires
        k <= lines@.len(),
        sum_line_lens(views_of(lines@), k as int) <= usize::MAX,
    ensures
        r as int == sum_line_lens(views_of(lines@), k as int),
{
    let mut acc: usize = 0;
    let mut i: usize = 0;
    while i < k
        invariant
            k <= lines@.len(),
            0 <= i <= k,
            sum_line_lens(views_of(lines@), k as int) <= usize::MAX,
            acc as int == sum_line_lens(views_of(lines@), i as int),
        decreases k - i,
    {
        let l = lines[i].as_str().unicode_len();
        proof {
            lemma_sum_monotone(views_of(lines@), i as int + 1, k as int);
            assert(sum_line_lens(views_of(lines@), i as int + 1) == sum_line_lens(
                views_of(lines@),
                i as int,
            ) + views_of(lines@)[i as int].len());
        }
        acc = acc + l;
        i += 1;
    }
    acc
}

} // verus!
