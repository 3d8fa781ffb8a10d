//! The matching engine: finds every non-overlapping occurrence of a rule's
//! pattern in a token sequence, in source order. After each match the scan
//! resumes at the first token whose start position is not before the end of
//! the matched window's last token.

use vstd::prelude::*;

use crate::pattern::{
    collect_window, first_match_from, lemma_first_match_bounds, needle_valid, pattern_valid,
    rule_eq, window_match, window_matches, Needle, Rule,
};
use crate::pos::{loc_before, loc_le, loc_lt, pos_wf};
use crate::token::{wf_tokens, Named};

verus! {

/// The first index at or after `i` whose token does not start strictly
/// before `(line, col)`; `s.len()` when every remaining token does.
pub open spec fn skip_from(s: Seq<Named>, line: int, col: int, i: int) -> int
    decreases s.len() - i when 0 <= i <= s.len()
{
    if i >= s.len() {
        i
    } else if loc_lt(s[i].2.start_line as int, s[i].2.start_col as int, line, col) {
        skip_from(s, line, col, i + 1)
    } else {
        i
    }
}

/// `skip_from` never moves backwards and stays within the sequence.
pub proof fn lemma_skip_from_ge(s: Seq<Named>, l: int, c: int, i: int)
    requires
        0 <= i <= s.len(),
    ensures
        i <= skip_from(s, l, c, i) <= s.len(),
    decreases s.len() - i,
{
    if i >= s.len() {
    } else if loc_lt(s[i].2.start_line as int, s[i].2.start_col as int, l, c) {
        lemma_skip_from_ge(s, l, c, i + 1);
    }
}

/// The start indices of every window the engine reports for one pattern,
/// scanning from `base`: the leftmost match first, then all matches of the
/// remainder past the resume position. A scan that cannot advance stops
/// after its first match.
pub open spec fn match_indices(p: Seq<Needle>, s: Seq<Named>, base: int) -> Seq<int>
    decreases s.len() - base when 0 <= base <= s.len()
{
    match first_match_from(p, s, base) {
        Option::None => Seq::empty(),
        Option::Some(m) => {
            let last = s[m + p.len() - 1];
            let nb = skip_from(s, last.2.end_line as int, last.2.end_col as int, base);
            if base < nb <= s.len() {
                seq![m] + match_indices(p, s, nb)
            } else {
                seq![m]
            }
        },
    }
}

/// The first match at or after `from`, as the left-to-right scan finds it.
pub(crate) fn find_from(p: &Vec<Needle>, s: &Vec<Named>, from: usize) -> (r: Option<usize>)
    requires
        from <= s@.len(),
        forall|i: int| 0 <= i < p@.len() ==> needle_valid(#[trigger] p@[i]),
    ensures
        match r {
            Option::None => first_match_from(p@, s@, from as int) is None,
            Option::Some(m) => first_match_from(p@, s@, from as int) == Option::Some(m as int),
        },
{
    let n = s.len();
    let pl = p.len();
    if pl > n || from > n - pl {
        return Option::None;
    }
    let mut m: usize = from;
    while m <= n - pl
        invariant
            n == s@.len(),
            pl == p@.len(),
            pl <= n,
            from <= m <= n,
            forall|i: int| 0 <= i < p@.len() ==> needle_valid(#[trigger] p@[i]),
            first_match_from(p@, s@, from as int) == first_match_from(p@, s@, m as int),
        decreases n - m,
    {
        if window_match(p, s, m) {
            return Option::Some(m);
        }
        m += 1;
    }
    Option::None
}

/// Finds all matches for a rule in the given token sequence: each reported
/// pair carries the rule and one matched window, windows in source order
/// and non-overlapping.
pub fn match_rule(rule: Rule, tokens: &Vec<Named>) -> (out: Vec<(Rule, Vec<Named>)>)
    requires
        pattern_valid(rule.pattern@),
        wf_tokens(tokens@),
    ensures
        ({
            let idxs = match_indices(rule.pattern@, tokens@, 0);
            let pl = rule.pattern@.len() as int;
            &&& out@.len() == idxs.len()
            &&& forall|i: int|
                0 <= i < idxs.len() ==> rule_eq(#[trigger] out@[i].0, rule) && out@[i].1@
                    == tokens@.subrange(idxs[i], idxs[i] + pl)
        }),
        tokens@.len() < rule.pattern@.len() ==> out@.len() == 0,
{
    let ghost full = match_indices(rule.pattern@, tokens@, 0);
    let mut out: Vec<(Rule, Vec<Named>)> = Vec::new();
    let ghost done: Seq<int> = Seq::empty();
    let n = tokens.len();
    let pl = rule.pattern.len();
    let mut base: usize = 0;
    loop
        invariant
            n == tokens@.len(),
            pl == rule.pattern@.len(),
            pattern_valid(rule.pattern@),
            wf_tokens(tokens@),
            0 <= base <= n,
            full == match_indices(rule.pattern@, tokens@, 0),
            full == done + match_indices(rule.pattern@, tokens@, base as int),
            out@.len() == done.len(),
            forall|i: int|
                0 <= i < done.len() ==> rule_eq(#[trigger] out@[i].0, rule) && out@[i].1@
                    == tokens@.subrange(done[i], done[i] + pl as int),
        ensures
            0 <= base <= n,
            full == done + match_indices(rule.pattern@, tokens@, base as int),
            first_match_from(rule.pattern@, tokens@, base as int) is None,
            out@.len() == done.len(),
            forall|i: int|
                0 <= i < done.len() ==> rule_eq(#[trigger] out@[i].0, rule) && out@[i].1@
                    == tokens@.subrange(done[i], done[i] + pl as int),
        decreases n - base,
    {
        match find_from(&rule.pattern, tokens, base) {
            Option::None => {
                break ;
            },
            Option::Some(m) => {
                proof {
                    lemma_first_match_bounds(rule.pattern@, tokens@, base as int);
                }
                let w = collect_window(tokens, m, pl);
                let last = &tokens[m + pl - 1];
                let rl = last.2.end_line;
                let rc = last.2.end_col;
                let mut nb: usize = base;
                while nb < n && loc_before(tokens[nb].2.start_line, tokens[nb].2.start_col, rl, rc)
                    invariant
                        n == tokens@.len(),
                        base <= nb <= n,
                        skip_from(tokens@, rl as int, rc as int, base as int) == skip_from(
                            tokens@,
                            rl as int,
                            rc as int,
                            nb as int,
                        ),
                    decreases n - nb,
                {
                    nb += 1;
                }
                proof {
                    let bi = base as int;
                    let mi = m as int;
                    let last_i = mi + pl - 1;
                    assert(skip_from(tokens@, rl as int, rc as int, bi) == nb as int);
                    // the engine always advances: the token at `base` starts
                    // strictly before the matched window's end position, so
                    // at least one token is skipped
                    assert(pos_wf(tokens@[bi].2));
                    assert(pos_wf(tokens@[last_i].2));
                    assert(loc_lt(
                        tokens@[bi].2.start_line as int,
                        tokens@[bi].2.start_col as int,
                        rl as int,
                        rc as int,
                    ));
                    lemma_skip_from_ge(tokens@, rl as int, rc as int, bi + 1);
                    assert(nb as int > bi);
                    // one unfolding of the match list at `base`
                    assert(match_indices(rule.pattern@, tokens@, bi) == seq![mi] + match_indices(
                        rule.pattern@,
                        tokens@,
                        nb as int,
                    ));
                }
                out.push((rule.clone(), w));
                proof {
                    done = done + seq![m as int];
                    assert(full =~= done + match_indices(rule.pattern@, tokens@, nb as int));
                }
                base = nb;
            },
        }
    }
    proof {
        assert(match_indices(rule.pattern@, tokens@, base as int) =~= Seq::<int>::empty());
        assert(full =~= done);
        if tokens@.len() < rule.pattern@.len() {
            assert(first_match_from(rule.pattern@, tokens@, 0) is None);
        }
    }
    out
}

/// Every reported match index lies at or after the scan base, leaves room
/// for a full window, and its window matches the pattern.
pub proof fn lemma_match_indices_in_range(p: Seq<Needle>, s: Seq<Named>, base: int)
    requires
        0 <= base <= s.len(),
    ensures
        forall|k: int|
            0 <= k < match_indices(p, s, base).len() ==> base <= #[trigger] match_indices(
                p,
                s,
                base,
            )[k] && match_indices(p, s, base)[k] + p.len() <= s.len() && window_matches(
                p,
                s,
                match_indices(p, s, base)[k],
            ),
    decreases s.len() - base,
{
    lemma_first_match_bounds(p, s, base);
    match first_match_from(p, s, base) {
        Option::None => {},
        Option::Some(m) => {
            let last = s[m + p.len() - 1];
            let nb = skip_from(s, last.2.end_line as int, last.2.end_col as int, base);
            if base < nb <= s.len() {
                lemma_match_indices_in_range(p, s, nb);
                assert(match_indices(p, s, base) == seq![m] + match_indices(p, s, nb));
                assert forall|k: int| 0 <= k < match_indices(p, s, base).len() implies base
                    <= #[trigger] match_indices(p, s, base)[k] && match_indices(p, s, base)[k]
                    + p.len() <= s.len() && window_matches(p, s, match_indices(p, s, base)[k]) by {
                    if k > 0 {
                        assert(match_indices(p, s, base)[k] == match_indices(p, s, nb)[k - 1]);
                    }
                }
            } else {
                assert(match_indices(p, s, base) == seq![m]);
            }
        },
    }
}

/// If every token in `[i, t)` starts strictly before `(l, c)`, the skip
/// reaches at least `t`.
proof fn lemma_skip_at_least(s: Seq<Named>, l: int, c: int, i: int, t: int)
    requires
        0 <= i <= t <= s.len(),
        forall|k: int|
            i <= k < t ==> loc_lt(
                (#[trigger] s[k]).2.start_line as int,
                s[k].2.start_col as int,
                l,
                c,
            ),
    ensures
        skip_from(s, l, c, i) >= t,
    decreases t - i,
{
    lemma_skip_from_ge(s, l, c, i);
    if i < t {
        assert(loc_lt(s[i].2.start_line as int, s[i].2.start_col as int, l, c));
        lemma_skip_at_least(s, l, c, i + 1, t);
    }
}

/// Consecutive reported matches never share a token: each match index is at
/// least a full pattern length past the previous one.
pub proof fn lemma_match_indices_separated(p: Seq<Needle>, s: Seq<Named>, base: int)
    requires
        wf_tokens(s),
        p.len() > 0,
        0 <= base <= s.len(),
    ensures
        forall|i: int, j: int|
            0 <= i < j < match_indices(p, s, base).len() ==> #[trigger] match_indices(p, s, base)[i]
                + p.len() <= #[trigger] match_indices(p, s, base)[j],
    decreases s.len() - base,
{
    let pl = p.len() as int;
    lemma_first_match_bounds(p, s, base);
    match first_match_from(p, s, base) {
        Option::None => {},
        Option::Some(m) => {
            let last = s[m + pl - 1];
            let rl = last.2.end_line as int;
            let rc = last.2.end_col as int;
            let nb = skip_from(s, rl, rc, base);
            if base < nb <= s.len() {
                lemma_match_indices_separated(p, s, nb);
                lemma_match_indices_in_range(p, s, nb);
                // every token of the window (and all before it) starts
                // strictly before the window's end position, so the resume
                // point clears the whole window
                assert forall|k: int| base <= k < m + pl implies loc_lt(
                    (#[trigger] s[k]).2.start_line as int,
                    s[k].2.start_col as int,
                    rl,
                    rc,
                ) by {
                    assert(pos_wf(s[k].2));
                    assert(pos_wf(s[m + pl - 1].2));
                    if k < m + pl - 1 {
                        assert(loc_le(
                            s[k].2.end_line as int,
                            s[k].2.end_col as int,
                            s[m + pl - 1].2.start_line as int,
                            s[m + pl - 1].2.start_col as int,
                        ));
                    }
                }
                lemma_skip_at_least(s, rl, rc, base, m + pl);
                assert(match_indices(p, s, base) == seq![m] + match_indices(p, s, nb));
            }
        },
    }
}

/// Windows reported for one rule are pairwise disjoint in source position
/// and appear in strictly increasing start order: an earlier window's last
/// token ends at or before a later window's first token starts, and window
/// start positions strictly increase.
pub proof fn lemma_matches_disjoint_ordered(r: Rule, s: Seq<Named>)
    requires
        wf_tokens(s),
        pattern_valid(r.pattern@),
    ensures
        forall|i: int, j: int|
            0 <= i < j < match_indices(r.pattern@, s, 0).len() ==> {
                let a = #[trigger] match_indices(r.pattern@, s, 0)[i];
                let b = #[trigger] match_indices(r.pattern@, s, 0)[j];
                &&& a + r.pattern@.len() <= b
                &&& loc_le(
                    s[a + r.pattern@.len() - 1].2.end_line as int,
                    s[a + r.pattern@.len() - 1].2.end_col as int,
                    s[b].2.start_line as int,
                    s[b].2.start_col as int,
                )
                &&& loc_lt(
                    s[a].2.start_line as int,
                    s[a].2.start_col as int,
                    s[b].2.start_line as int,
                    s[b].2.start_col as int,
                )
            },
{
    let p = r.pattern@;
    let pl = p.len() as int;
    lemma_match_indices_separated(p, s, 0);
    lemma_match_indices_in_range(p, s, 0);
    assert forall|i: int, j: int| 0 <= i < j < match_indices(p, s, 0).len() implies {
        let a = #[trigger] match_indices(p, s, 0)[i];
        let b = #[trigger] match_indices(p, s, 0)[j];
        &&& a + pl <= b
        &&& loc_le(
            s[a + pl - 1].2.end_line as int,
            s[a + pl - 1].2.end_col as int,
            s[b].2.start_line as int,
            s[b].2.start_col as int,
        )
        &&& loc_lt(
            s[a].2.start_line as int,
            s[a].2.start_col as int,
            s[b].2.start_line as int,
            s[b].2.start_col as int,
        )
    } by {
        let a = match_indices(p, s, 0)[i];
        let b = match_indices(p, s, 0)[j];
        assert(pos_wf(s[a].2));
        assert(pos_wf(s[a + pl - 1].2));
        assert(pos_wf(s[b].2));
        if a < a + pl - 1 {
            assert(loc_le(
                s[a].2.end_line as int,
                s[a].2.end_col as int,
                s[a + pl - 1].2.start_line as int,
                s[a + pl - 1].2.start_col as int,
            ));
        }
        assert(loc_le(
            s[a + pl - 1].2.end_line as int,
            s[a + pl - 1].2.end_col as int,
            s[b].2.start_line as int,
            s[b].2.start_col as int,
        ));
    }
}

/// A token sequence shorter than the pattern yields no matches: the scan
/// returns empty without attempting any window.
pub proof fn lemma_short_input_no_matches(r: Rule, s: Seq<Named>)
    requires
        s.len() < r.pattern@.len(),
    ensures
        match_indices(r.pattern@, s, 0).len() == 0,
{
}

/// The matching engine is a pure function of the rule and the token
/// sequence: two runs over the same inputs yield identical match lists.
pub proof fn lemma_engine_deterministic(r: Rule, s: Seq<Named>, first: Seq<int>, second: Seq<int>)
    requires
        first == match_indices(r.pattern@, s, 0),
        second == match_indices(r.pattern@, s, 0),
    ensures
        first == second,
{
}

} // verus!
