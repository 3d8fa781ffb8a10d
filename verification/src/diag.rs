//! The diagnostic builder: turns the engine's matches into violations that
//! carry everything a renderer needs — the rule, the matched window, the
//! text of the line the match starts on, the character count of all earlier
//! lines, and the file's name and full text.

use vstd::prelude::*;
use vstd::string::*;

use crate::engine::{lemma_match_indices_in_range, match_indices, match_rule};
use crate::lines::{
    chars_before, lemma_sum_bounded, spec_lines, split_lines, sum_line_lens, views_of,
};
use crate::pattern::{pattern_valid, rule_eq, rule_valid, rules_valid, Rule, Rules};
use crate::token::{wf_tokens, Named};

verus! {

/// One confirmed match, ready for rendering: the violated rule, the matched
/// window, the text of the line the window starts on paired with the number
/// of characters on all earlier lines, and the linted file's name and full
/// text.
#[derive(Debug)]
pub struct LintError {
    pub rule: Rule,
    pub fails: bool,
    pub line: (String, usize),
    pub window: Vec<Named>,
    pub file_name: String,
    pub source: String,
}

/// Field-wise equality of two violations; vectors are compared element by
/// element.
pub open spec fn lint_eq(a: LintError, b: LintError) -> bool {
    &&& rule_eq(a.rule, b.rule)
    &&& a.fails == b.fails
    &&& a.line == b.line
    &&& a.window@ == b.window@
    &&& a.file_name == b.file_name
    &&& a.source == b.source
}

/// Clones the window `v` exactly.
pub fn clone_window(v: &Vec<Named>) -> (r: Vec<Named>)
    ensures
        r@ == v@,
{
    let r = crate::pattern::collect_window(v, 0, v.len());
    proof {
        assert(v@.subrange(0, v@.len() as int) =~= v@);
    }
    r
}

impl Clone for LintError {
    fn clone(&self) -> (r: LintError)
        ensures
            lint_eq(r, *self),
    {
        LintError {
            rule: self.rule.clone(),
            fails: self.fails,
            line: (self.line.0.clone(), self.line.1),
            window: clone_window(&self.window),
            file_name: self.file_name.clone(),
            source: self.source.clone(),
        }
    }
}

/// The matches one rule produces on a token sequence, paired with the rule.
pub open spec fn rule_pairs(r: Rule, s: Seq<Named>) -> Seq<(Rule, Seq<Named>)> {
    match_indices(r.pattern@, s, 0).map_values(
        |m: int| (r, s.subrange(m, m + r.pattern@.len() as int)),
    )
}

/// Every match of every rule of the set, in the set's declaration order,
/// each rule matched independently against the full token sequence.
pub open spec fn all_matches(rs: Seq<(String, Rule)>, s: Seq<Named>) -> Seq<(Rule, Seq<Named>)>
    decreases rs.len(),
{
    if rs.len() == 0 {
        Seq::empty()
    } else {
        rule_pairs(rs[0].1, s) + all_matches(rs.drop_first(), s)
    }
}

/// Every token's start line exists in the source text the tokens were read
/// from (lines are 1-based).
pub open spec fn tokens_within_lines(s: Seq<Named>, src: Seq<char>) -> bool {
    forall|i: int|
        0 <= i < s.len() ==> 1 <= (#[trigger] s[i]).2.start_line && s[i].2.start_line - 1
            < spec_lines(src).len()
}

/// What the builder promises of one violation: it carries the rule, the
/// window, the text of the window's starting line, the character count of
/// all earlier lines, and the file's name and text.
pub open spec fn violation_wf(
    e: LintError,
    r: Rule,
    w: Seq<Named>,
    src: Seq<char>,
    file: Seq<char>,
) -> bool {
    &&& rule_eq(e.rule, r)
    &&& e.fails == r.fails
    &&& e.window@ == w
    &&& w.len() > 0
    &&& e.line.0@ == spec_lines(src)[w[0].2.start_line - 1]
    &&& e.line.1 as int == sum_line_lens(spec_lines(src), w[0].2.start_line - 1)
    &&& e.file_name@ == file
    &&& e.source@ == src
}

/// Tests a set of rules against a source file: every rule is matched
/// independently against the full token sequence, and one violation is
/// built per match, carrying the starting line's text and offset.
pub fn test(rules: Rules, tokens: Vec<Named>, source: String, file_name: String) -> (out: Vec<
    LintError,
>)
    requires
        rules_valid(rules.rules@),
        wf_tokens(tokens@),
        tokens_within_lines(tokens@, source@),
    ensures
        out@.len() == all_matches(rules.rules@, tokens@).len(),
        forall|i: int|
            0 <= i < out@.len() ==> violation_wf(
                #[trigger] out@[i],
                all_matches(rules.rules@, tokens@)[i].0,
                all_matches(rules.rules@, tokens@)[i].1,
                source@,
                file_name@,
            ),
{
    let src_len = source.as_str().unicode_len();
    let lines = split_lines(source.as_str());
    let ghost am = all_matches(rules.rules@, tokens@);
    let ghost built: Seq<(Rule, Seq<Named>)> = Seq::empty();
    let mut out: Vec<LintError> = Vec::new();
    let nr = rules.rules.len();
    let mut ri: usize = 0;
    proof {
        assert(rules.rules@.skip(0) =~= rules.rules@);
    }
    while ri < nr
        invariant
            nr == rules.rules@.len(),
            0 <= ri <= nr,
            rules_valid(rules.rules@),
            wf_tokens(tokens@),
            tokens_within_lines(tokens@, source@),
            views_of(lines@) == spec_lines(source@),
            src_len == source@.len(),
            am == all_matches(rules.rules@, tokens@),
            am == built + all_matches(rules.rules@.skip(ri as int), tokens@),
            out@.len() == built.len(),
            forall|i: int|
                0 <= i < built.len() ==> violation_wf(
                    #[trigger] out@[i],
                    built[i].0,
                    built[i].1,
                    source@,
                    file_name@,
                ),
        decreases nr - ri,
    {
        let ghost orig = rules.rules@[ri as int].1;
        let ghost pairs = rule_pairs(orig, tokens@);
        proof {
            let tail = rules.rules@.skip(ri as int);
            assert(tail[0] == rules.rules@[ri as int]);
            assert(tail.drop_first() =~= rules.rules@.skip(ri as int + 1));
            assert(all_matches(tail, tokens@) == rule_pairs(tail[0].1, tokens@) + all_matches(
                tail.drop_first(),
                tokens@,
            ));
            assert(rule_valid(orig));
        }
        let rc = rules.rules[ri].1.clone();
        let ghost rcg = rc;
        let found = match_rule(rc, &tokens);
        proof {
            lemma_match_indices_in_range(orig.pattern@, tokens@, 0);
            assert(rcg.pattern@ == orig.pattern@);
            let idxs = match_indices(orig.pattern@, tokens@, 0);
            let pl = orig.pattern@.len() as int;
            assert forall|k: int| 0 <= k < found@.len() implies rule_eq(#[trigger] found@[k].0, orig)
                && found@[k].1@ == pairs[k].1 by {
                assert(rule_eq(found@[k].0, rcg));
                assert(rule_eq(rcg, orig));
                assert(found@[k].1@ == tokens@.subrange(idxs[k], idxs[k] + pl));
                assert(pairs[k] == (orig, tokens@.subrange(idxs[k], idxs[k] + pl)));
            }
            assert forall|k: int| 0 <= k < found@.len() implies #[trigger] pairs[k].0 == orig
                && pairs[k].1 == tokens@.subrange(idxs[k], idxs[k] + pl) by {
                assert(pairs[k] == (orig, tokens@.subrange(idxs[k], idxs[k] + pl)));
            }
            assert(pairs.skip(0) =~= pairs);
            assert(am =~= built + pairs.skip(0) + all_matches(
                rules.rules@.skip(ri as int + 1),
                tokens@,
            ));
        }
        let nf = found.len();
        let mut fi: usize = 0;
        while fi < nf
            invariant
                nf == found@.len(),
                0 <= fi <= nf,
                rules_valid(rules.rules@),
                wf_tokens(tokens@),
                tokens_within_lines(tokens@, source@),
                views_of(lines@) == spec_lines(source@),
                src_len == source@.len(),
                nr == rules.rules@.len(),
                ri < nr,
                orig == rules.rules@[ri as int].1,
                pairs == rule_pairs(orig, tokens@),
                nf == pairs.len(),
                pattern_valid(orig.pattern@),
                forall|k: int|
                    0 <= k < nf ==> rule_eq(#[trigger] found@[k].0, orig) && found@[k].1@
                        == pairs[k].1,
                forall|k: int|
                    0 <= k < nf ==> #[trigger] pairs[k].0 == orig && pairs[k].1
                        == tokens@.subrange(
                        match_indices(orig.pattern@, tokens@, 0)[k],
                        match_indices(orig.pattern@, tokens@, 0)[k]
                            + orig.pattern@.len() as int,
                    ),
                forall|k: int|
                    0 <= k < nf ==> 0 <= #[trigger] match_indices(orig.pattern@, tokens@, 0)[k]
                        && match_indices(orig.pattern@, tokens@, 0)[k] + orig.pattern@.len()
                        <= tokens@.len(),
                am == all_matches(rules.rules@, tokens@),
                am == built + pairs.skip(fi as int) + all_matches(
                    rules.rules@.skip(ri as int + 1),
                    tokens@,
                ),
                out@.len() == built.len(),
                forall|i: int|
                    0 <= i < built.len() ==> violation_wf(
                        #[trigger] out@[i],
                        built[i].0,
                        built[i].1,
                        source@,
                        file_name@,
                    ),
            decreases nf - fi,
        {
            let pr = &found[fi];
            proof {
                let idx = match_indices(orig.pattern@, tokens@, 0)[fi as int];
                assert(pairs[fi as int].1[0] == tokens@[idx]);
                assert(1 <= tokens@[idx].2.start_line);
                assert(tokens@[idx].2.start_line - 1 < spec_lines(source@).len());
            }
            let w0 = &pr.1[0];
            let ln = w0.2.start_line;
            proof {
                lemma_sum_bounded(source@, 0, ln - 1);
            }
            let line_txt = lines[ln - 1].clone();
            let off = chars_before(&lines, ln - 1);
            let e = LintError {
                rule: pr.0.clone(),
                fails: pr.0.fails,
                line: (line_txt, off),
                window: clone_window(&pr.1),
                file_name: file_name.clone(),
                source: source.clone(),
            };
            out.push(e);
            proof {
                built = built + seq![pairs[fi as int]];
                assert(pairs.skip(fi as int).drop_first() =~= pairs.skip(fi as int + 1));
                assert(am =~= built + pairs.skip(fi as int + 1) + all_matches(
                    rules.rules@.skip(ri as int + 1),
                    tokens@,
                ));
            }
            fi += 1;
        }
        proof {
            assert(pairs.skip(nf as int) =~= Seq::<(Rule, Seq<Named>)>::empty());
            assert(am =~= built + all_matches(rules.rules@.skip(ri as int + 1), tokens@));
        }
        ri += 1;
    }
    proof {
        assert(rules.rules@.skip(nr as int) =~= Seq::<(String, Rule)>::empty());
        assert(am =~= built);
    }
    out
}

/// Decides whether every token's start line exists in the source text.
pub fn check_tokens_within(tokens: &Vec<Named>, source: &String) -> (r: bool)
    ensures
        r == tokens_within_lines(tokens@, source@),
{
    let lines = split_lines(source.as_str());
    let ln = lines.len();
    proof {
        assert(ln == spec_lines(source@).len());
    }
    let n = tokens.len();
    let mut i: usize = 0;
    while i < n
        invariant
            n == tokens@.len(),
            ln == spec_lines(source@).len(),
            0 <= i <= n,
            forall|k: int|
                0 <= k < i ==> 1 <= (#[trigger] tokens@[k]).2.start_line
                    && tokens@[k].2.start_line - 1 < spec_lines(source@).len(),
        decreases n - i,
    {
        let t = &tokens[i];
        if !(t.2.start_line >= 1 && t.2.start_line - 1 < ln) {
            return false;
        }
        i += 1;
    }
    true
}

/// The whole pipeline for one file's tokens: validates the rule set and the
/// token sequence first, and refuses invalid input with `None`; otherwise
/// matches every rule and builds one violation per match.
pub fn lint_tokens(rules: Rules, tokens: Vec<Named>, source: String, file_name: String) -> (r:
    Option<Vec<LintError>>)
    ensures
        r is Some <==> (crate::pattern::rules_unique(rules.rules@) && rules_valid(rules.rules@)
            && wf_tokens(tokens@) && tokens_within_lines(tokens@, source@)),
        r is Some ==> {
            let vs = r->0;
            &&& vs@.len() == all_matches(rules.rules@, tokens@).len()
            &&& forall|i: int|
                0 <= i < vs@.len() ==> violation_wf(
                    #[trigger] vs@[i],
                    all_matches(rules.rules@, tokens@)[i].0,
                    all_matches(rules.rules@, tokens@)[i].1,
                    source@,
                    file_name@,
                )
        },
{
    if !rules.check() {
        return Option::None;
    }
    if !crate::token::check_tokens(&tokens) {
        return Option::None;
    }
    if !check_tokens_within(&tokens, &source) {
        return Option::None;
    }
    Option::Some(test(rules, tokens, source, file_name))
}

/// The summed byte extents of the `k` tokens starting at index `a`:
/// each token contributes `byte_end - byte_start`.
pub open spec fn byte_len_range(s: Seq<Named>, a: int, k: int) -> int
    decreases k,
{
    if k <= 0 {
        0
    } else {
        byte_len_range(s, a, k - 1) + if 0 <= a + k - 1 < s.len() {
            s[a + k - 1].2.byte_end - s[a + k - 1].2.byte_start
        } else {
            0
        }
    }
}

/// With ordered byte ranges, partial byte sums grow with the token count.
pub proof fn lemma_byte_len_monotone(s: Seq<Named>, a: int, k1: int, k2: int)
    requires
        0 <= k1 <= k2,
        forall|j: int| 0 <= j < s.len() ==> (#[trigger] s[j]).2.byte_start <= s[j].2.byte_end,
    ensures
        byte_len_range(s, a, k1) <= byte_len_range(s, a, k2),
    decreases k2 - k1,
{
    if k1 < k2 {
        lemma_byte_len_monotone(s, a, k1, k2 - 1);
    }
}

/// The highlight extent of a window's sub-range `r.0 ..= r.1`: the byte
/// offset of the sub-window's first token (located by its line and 1-based
/// column within the file text) and the summed byte extents of the
/// sub-window's tokens.
pub fn span(c: String, s: Vec<Named>, r: (usize, usize)) -> (o: (usize, usize))
    requires
        r.0 <= r.1 < s@.len(),
        forall|j: int| 0 <= j < s@.len() ==> (#[trigger] s@[j]).2.byte_start <= s@[j].2.byte_end,
        byte_len_range(s@, r.0 as int, r.1 - r.0 + 1) <= usize::MAX,
        s@[r.0 as int].2.start_col < usize::MAX,
        crate::text::utf8_len_of(c@) <= usize::MAX,
    ensures
        o.0 as int == crate::text::loc_offset(
            c@,
            s@[r.0 as int].2.start_line as int,
            s@[r.0 as int].2.start_col as int + 1,
        ),
        o.1 as int == byte_len_range(s@, r.0 as int, r.1 - r.0 + 1),
{
    let n = s.len();
    let first = &s[r.0];
    let line = first.2.start_line;
    let col = first.2.start_col;
    let mut length: usize = 0;
    let mut k: usize = 0;
    let count = r.1 - r.0 + 1;
    while k < count
        invariant
            n == s@.len(),
            r.0 <= r.1 < s@.len(),
            count == r.1 - r.0 + 1,
            0 <= k <= count,
            forall|j: int| 0 <= j < s@.len() ==> (#[trigger] s@[j]).2.byte_start <= s@[j].2.byte_end,
            byte_len_range(s@, r.0 as int, count as int) <= usize::MAX,
            length as int == byte_len_range(s@, r.0 as int, k as int),
        decreases count - k,
    {
        proof {
            lemma_byte_len_monotone(s@, r.0 as int, k as int + 1, count as int);
        }
        let t = &s[r.0 + k];
        length = length + (t.2.byte_end - t.2.byte_start);
        k += 1;
    }
    let offset = crate::text::offset_of_location(c.as_str(), line, col + 1);
    (offset, length)
}

/// Whether at least one violation is a hard failure.
pub open spec fn spec_any_fails(vs: Seq<LintError>) -> bool {
    exists|i: int| 0 <= i < vs.len() && (#[trigger] vs[i]).fails
}

/// How many violations are hard failures.
pub open spec fn spec_count_fails(vs: Seq<LintError>) -> int
    decreases vs.len(),
{
    if vs.len() == 0 {
        0
    } else {
        spec_count_fails(vs.drop_last()) + if vs.last().fails {
            1int
        } else {
            0int
        }
    }
}

/// Whether the run must end with a non-zero exit: true exactly when some
/// violation is a hard failure.
pub fn any_fails(vs: &Vec<LintError>) -> (r: bool)
    ensures
        r == spec_any_fails(vs@),
{
    let mut i: usize = 0;
    while i < vs.len()
        invariant
            0 <= i <= vs@.len(),
            forall|k: int| 0 <= k < i ==> !(#[trigger] vs@[k]).fails,
        decreases vs@.len() - i,
    {
        if vs[i].fails {
            return true;
        }
        i += 1;
    }
    false
}

/// Counts the hard failures, for the run's summary line.
pub fn count_fails(vs: &Vec<LintError>) -> (r: usize)
    ensures
        r as int == spec_count_fails(vs@),
{
    let mut c: usize = 0;
    let mut i: usize = 0;
    proof {
        lemma_count_fails_bound(vs@, 0);
    }
    while i < vs.len()
        invariant
            0 <= i <= vs@.len(),
            c as int == spec_count_fails(vs@.subrange(0, i as int)),
            c <= i,
        decreases vs@.len() - i,
    {
        proof {
            assert(vs@.subrange(0, i as int + 1).drop_last() =~= vs@.subrange(0, i as int));
            assert(vs@.subrange(0, i as int + 1).last() == vs@[i as int]);
            lemma_count_fails_bound(vs@.subrange(0, i as int), 0);
        }
        if vs[i].fails {
            c = c + 1;
        }
        i += 1;
    }
    proof {
        assert(vs@.subrange(0, vs@.len() as int) =~= vs@);
    }
    c
}

/// The failure count never exceeds the number of violations.
pub proof fn lemma_count_fails_bound(vs: Seq<LintError>, dummy: int)
    ensures
        0 <= spec_count_fails(vs) <= vs.len(),
    decreases vs.len(),
{
    if vs.len() > 0 {
        lemma_count_fails_bound(vs.drop_last(), dummy);
    }
}

/// Exit behaviour: a run whose violations all come from informational rules
/// never demands a non-zero exit, and a single hard failure always does.
pub proof fn lemma_exit_behavior(vs: Seq<LintError>)
    ensures
        (forall|i: int| 0 <= i < vs.len() ==> !(#[trigger] vs[i]).fails) ==> !spec_any_fails(vs),
        (exists|i: int| 0 <= i < vs.len() && (#[trigger] vs[i]).fails) ==> spec_any_fails(vs),
{
}

} // verus!
