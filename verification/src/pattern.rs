//! The pattern model: a `Needle` matches one token, a `Rule` is an ordered
//! needle sequence plus presentation metadata, and a `Rules` set maps rule
//! identifiers to rules.

use vstd::prelude::*;
use vstd::string::*;

use crate::rx::{regex_compiles, regex_is_match, regex_matches, regex_valid};
use crate::token::Named;

verus! {

/// A single-token matcher: a kind, and an optional text constraint. A
/// constraint wrapped in `/…/` is a regular expression tested against the
/// token text; any other constraint must equal the token text exactly.
#[derive(Debug, PartialEq)]
pub struct Needle(pub String, pub Option<String>);

/// Whether a needle value is in regular-expression form: at least two
/// characters, wrapped in `/…/`.
pub open spec fn is_regex_form(v: Seq<char>) -> bool {
    v.len() >= 2 && v[0] == '/' && v[v.len() - 1] == '/'
}

/// The pattern text inside the `/…/` delimiters.
pub open spec fn regex_inner(v: Seq<char>) -> Seq<char> {
    v.subrange(1, v.len() - 1)
}

/// What it means for a needle to accept a token: the kinds are equal, and
/// the token text satisfies the needle's constraint, if any.
pub open spec fn needle_matches(n: Needle, t: Named) -> bool {
    &&& t.0@ == n.0@
    &&& match n.1 {
        Option::None => true,
        Option::Some(v) => if is_regex_form(v@) {
            regex_matches(regex_inner(v@), t.1@)
        } else {
            t.1@ == v@
        },
    }
}

/// A needle is valid when its regular expression, if it has one, compiles.
/// An invalid needle is a configuration error and is rejected before any
/// matching starts.
pub open spec fn needle_valid(n: Needle) -> bool {
    match n.1 {
        Option::None => true,
        Option::Some(v) => is_regex_form(v@) ==> regex_valid(regex_inner(v@)),
    }
}

impl Clone for Needle {
    fn clone(&self) -> (r: Needle)
        ensures
            r == *self,
    {
        Needle(self.0.clone(), clone_opt_string(&self.1))
    }
}

/// Clones an optional string, preserving the value exactly.
pub fn clone_opt_string(o: &Option<String>) -> (r: Option<String>)
    ensures
        r == *o,
{
    match o {
        Option::None => Option::None,
        Option::Some(v) => Option::Some(v.clone()),
    }
}

impl Needle {
    /// Whether this needle accepts the given token.
    pub fn test(&self, s: &Named) -> (r: bool)
        requires
            needle_valid(*self),
        ensures
            r == needle_matches(*self, *s),
    {
        if !(self.0 == s.0) {
            return false;
        }
        match &self.1 {
            Option::None => true,
            Option::Some(v) => {
                let vs = v.as_str();
                let n = vs.unicode_len();
                if n >= 2 && vs.get_char(0) == '/' && vs.get_char(n - 1) == '/' {
                    let inner = vs.substring_char(1, n - 1);
                    match regex_is_match(inner, s.1.as_str()) {
                        Option::Some(b) => b,
                        // a valid needle's pattern always compiles
                        Option::None => vstd::pervasive::unreached(),
                    }
                } else {
                    s.1 == *v
                }
            },
        }
    }

    /// Whether this needle is valid configuration: its regular expression,
    /// if it has one, compiles.
    pub fn check(&self) -> (r: bool)
        ensures
            r == needle_valid(*self),
    {
        match &self.1 {
            Option::None => true,
            Option::Some(v) => {
                let vs = v.as_str();
                let n = vs.unicode_len();
                if n >= 2 && vs.get_char(0) == '/' && vs.get_char(n - 1) == '/' {
                    let inner = vs.substring_char(1, n - 1);
                    regex_compiles(inner)
                } else {
                    true
                }
            },
        }
    }
}

/// A needle without a text constraint accepts every token of its kind,
/// whatever the token's text.
pub proof fn lemma_kind_only_needle(n: Needle, t: Named)
    requires
        n.1 is None,
    ensures
        needle_matches(n, t) <==> t.0@ == n.0@,
{
}

/// A lint rule: an ordered needle pattern, a highlight sub-range into that
/// pattern, and presentation metadata. `fails` marks the rule as a hard
/// failure (error); otherwise it is informational (warning).
#[derive(Debug, PartialEq)]
pub struct Rule {
    pub name: String,
    pub description: String,
    pub help: Option<String>,
    pub range: (usize, usize),
    pub pattern: Vec<Needle>,
    pub link: Option<String>,
    pub fails: bool,
    pub replace: Option<String>,
}

/// Field-wise equality of two rules; the pattern is compared element by
/// element.
pub open spec fn rule_eq(a: Rule, b: Rule) -> bool {
    &&& a.name == b.name
    &&& a.description == b.description
    &&& a.help == b.help
    &&& a.range == b.range
    &&& a.pattern@ == b.pattern@
    &&& a.link == b.link
    &&& a.fails == b.fails
    &&& a.replace == b.replace
}

/// Clones a needle sequence, preserving every element exactly.
pub fn clone_needles(v: &Vec<Needle>) -> (r: Vec<Needle>)
    ensures
        r@ == v@,
{
    let mut r: Vec<Needle> = Vec::new();
    let mut i: usize = 0;
    while i < v.len()
        invariant
            i <= v@.len(),
            r@ == v@.subrange(0, i as int),
        decreases v@.len() - i,
    {
        r.push(v[i].clone());
        i += 1;
        proof {
            assert(r@ =~= v@.subrange(0, i as int));
        }
    }
    proof {
        assert(r@ =~= v@);
    }
    r
}

impl Clone for Rule {
    fn clone(&self) -> (r: Rule)
        ensures
            rule_eq(r, *self),
    {
        Rule {
            name: self.name.clone(),
            description: self.description.clone(),
            help: clone_opt_string(&self.help),
            range: self.range,
            pattern: clone_needles(&self.pattern),
            link: clone_opt_string(&self.link),
            fails: self.fails,
            replace: clone_opt_string(&self.replace),
        }
    }
}

/// A usable pattern: non-empty, with every needle valid.
pub open spec fn pattern_valid(p: Seq<Needle>) -> bool {
    &&& p.len() > 0
    &&& forall|i: int| 0 <= i < p.len() ==> needle_valid(#[trigger] p[i])
}

/// A valid rule: a usable pattern, and a highlight range that lies within
/// the pattern.
pub open spec fn rule_valid(r: Rule) -> bool {
    &&& pattern_valid(r.pattern@)
    &&& r.range.0 <= r.range.1
    &&& r.range.1 < r.pattern@.len()
}

/// The contiguous window of tokens starting at `i` exists and matches the
/// pattern element-wise.
pub open spec fn window_matches(p: Seq<Needle>, s: Seq<Named>, i: int) -> bool {
    &&& 0 <= i
    &&& i + p.len() <= s.len()
    &&& forall|k: int| 0 <= k < p.len() ==> needle_matches(p[k], #[trigger] s[i + k])
}

/// The least index at or after `i` where the pattern matches a full window,
/// if any: a strict left-to-right scan.
pub open spec fn first_match_from(p: Seq<Needle>, s: Seq<Named>, i: int) -> Option<int>
    decreases s.len() - i when 0 <= i <= s.len()
{
    if i + p.len() > s.len() {
        Option::None
    } else if window_matches(p, s, i) {
        Option::Some(i)
    } else {
        first_match_from(p, s, i + 1)
    }
}

/// What the left-to-right scan guarantees: a found index is the least
/// matching one, and a miss means no window matches at all.
pub proof fn lemma_first_match_bounds(p: Seq<Needle>, s: Seq<Named>, i: int)
    requires
        0 <= i <= s.len(),
    ensures
        match first_match_from(p, s, i) {
            Option::None => forall|j: int|
                i <= j && j + p.len() <= s.len() ==> !window_matches(p, s, j),
            Option::Some(m) => i <= m && m + p.len() <= s.len() && window_matches(p, s, m)
                && forall|j: int| i <= j < m ==> !window_matches(p, s, j),
        },
    decreases s.len() - i,
{
    if i + p.len() > s.len() {
    } else if window_matches(p, s, i) {
    } else {
        lemma_first_match_bounds(p, s, i + 1);
    }
}

/// Decides whether the full window starting at `m` matches the pattern.
pub(crate) fn window_match(p: &Vec<Needle>, s: &Vec<Named>, m: usize) -> (r: bool)
    requires
        m + p@.len() <= s@.len(),
        forall|i: int| 0 <= i < p@.len() ==> needle_valid(#[trigger] p@[i]),
    ensures
        r == window_matches(p@, s@, m as int),
{
    let n = s.len();
    let mut k: usize = 0;
    while k < p.len()
        invariant
            n == s@.len(),
            k <= p@.len(),
            m + p@.len() <= s@.len(),
            forall|i: int| 0 <= i < p@.len() ==> needle_valid(#[trigger] p@[i]),
            forall|j: int| 0 <= j < k ==> needle_matches(p@[j], #[trigger] s@[m + j]),
        decreases p@.len() - k,
    {
        if !p[k].test(&s[m + k]) {
            return false;
        }
        k += 1;
    }
    true
}

/// Clones the window `s[m .. m + len)`.
pub(crate) fn collect_window(s: &Vec<Named>, m: usize, len: usize) -> (r: Vec<Named>)
    requires
        m + len <= s@.len(),
    ensures
        r@ == s@.subrange(m as int, m as int + len as int),
{
    let n = s.len();
    let mut r: Vec<Named> = Vec::new();
    let mut k: usize = 0;
    while k < len
        invariant
            n == s@.len(),
            k <= len,
            m + len <= s@.len(),
            r@ == s@.subrange(m as int, m as int + k as int),
        decreases len - k,
    {
        r.push(s[m + k].clone());
        k += 1;
        proof {
            assert(r@ =~= s@.subrange(m as int, m as int + k as int));
        }
    }
    r
}

impl Rule {
    /// Scans the token sequence left to right for the first window matching
    /// this rule's pattern. `Err` carries the matched window; `Ok` means no
    /// window matches.
    pub fn test(&self, s: &Vec<Named>) -> (r: Result<(), Vec<Named>>)
        requires
            pattern_valid(self.pattern@),
        ensures
            (match r {
                Result::Ok(u) => first_match_from(self.pattern@, s@, 0) is None,
                Result::Err(w) => {
                    &&& first_match_from(self.pattern@, s@, 0) is Some
                    &&& w@ == s@.subrange(
                        first_match_from(self.pattern@, s@, 0)->0,
                        first_match_from(self.pattern@, s@, 0)->0 + self.pattern@.len(),
                    )
                },
            }),
    {
        let pl = self.pattern.len();
        let n = s.len();
        if n < pl {
            return Result::Ok(());
        }
        let mut m: usize = 0;
        while m <= n - pl
            invariant
                pl == self.pattern@.len(),
                n == s@.len(),
                pl <= n,
                m <= n,
                pattern_valid(self.pattern@),
                first_match_from(self.pattern@, s@, 0) == first_match_from(
                    self.pattern@,
                    s@,
                    m as int,
                ),
            decreases n - m,
        {
            if window_match(&self.pattern, s, m) {
                let w = collect_window(s, m, pl);
                return Result::Err(w);
            }
            m += 1;
        }
        Result::Ok(())
    }

    /// Validates this rule, then scans: `None` when the rule is invalid
    /// configuration, else the scan's result with its guarantees.
    pub fn try_test(&self, s: &Vec<Named>) -> (r: Option<Result<(), Vec<Named>>>)
        ensures
            r is Some <==> rule_valid(*self),
            r is Some ==> (match r->0 {
                Result::Ok(u) => first_match_from(self.pattern@, s@, 0) is None,
                Result::Err(w) => {
                    &&& first_match_from(self.pattern@, s@, 0) is Some
                    &&& w@ == s@.subrange(
                        first_match_from(self.pattern@, s@, 0)->0,
                        first_match_from(self.pattern@, s@, 0)->0 + self.pattern@.len(),
                    )
                },
            }),
    {
        if self.check() {
            Option::Some(self.test(s))
        } else {
            Option::None
        }
    }

    /// Whether this rule is valid configuration: every needle valid, and the
    /// highlight range within the pattern.
    pub fn check(&self) -> (r: bool)
        ensures
            r == rule_valid(*self),
    {
        if self.pattern.len() == 0 {
            return false;
        }
        if !(self.range.0 <= self.range.1 && self.range.1 < self.pattern.len()) {
            return false;
        }
        let mut i: usize = 0;
        while i < self.pattern.len()
            invariant
                i <= self.pattern@.len(),
                forall|j: int| 0 <= j < i ==> needle_valid(#[trigger] self.pattern@[j]),
            decreases self.pattern@.len() - i,
        {
            if !self.pattern[i].check() {
                return false;
            }
            i += 1;
        }
        true
    }
}

/// Reads an inclusive highlight range from its configuration encoding, an
/// array of exactly two indices; any other length is invalid.
pub fn range_from_array(v: &Vec<usize>) -> (r: Option<(usize, usize)>)
    ensures
        r is Some <==> v@.len() == 2,
        r is Some ==> r->0 == (v@[0], v@[1]),
{
    if v.len() == 2 {
        Option::Some((v[0], v[1]))
    } else {
        Option::None
    }
}

/// A rule set: rule identifiers mapped to rules, kept in declaration order.
#[derive(Debug)]
pub struct Rules {
    pub rules: Vec<(String, Rule)>,
}

/// Every rule in the set is valid configuration.
pub open spec fn rules_valid(rs: Seq<(String, Rule)>) -> bool {
    forall|i: int| 0 <= i < rs.len() ==> rule_valid(#[trigger] rs[i].1)
}

/// Rule identifiers are pairwise distinct.
pub open spec fn rules_unique(rs: Seq<(String, Rule)>) -> bool {
    forall|i: int, j: int| 0 <= i < j < rs.len() ==> (#[trigger] rs[i].0)@ != (#[trigger] rs[j].0)@
}

impl Rules {
    /// Whether the whole set is valid configuration: every rule valid and
    /// every identifier distinct.
    pub fn check(&self) -> (r: bool)
        ensures
            r == (rules_valid(self.rules@) && rules_unique(self.rules@)),
    {
        let n = self.rules.len();
        let mut i: usize = 0;
        while i < n
            invariant
                n == self.rules@.len(),
                i <= n,
                forall|k: int| 0 <= k < i ==> rule_valid(#[trigger] self.rules@[k].1),
            decreases n - i,
        {
            if !self.rules[i].1.check() {
                return false;
            }
            i += 1;
        }
        let mut a: usize = 0;
        while a < n
            invariant
                n == self.rules@.len(),
                a <= n,
                rules_valid(self.rules@),
                forall|i: int, j: int|
                    0 <= i < j < n && i < a ==> (#[trigger] self.rules@[i].0)@ != (
                    #[trigger] self.rules@[j].0)@,
            decreases n - a,
        {
            let mut b: usize = a + 1;
            while b < n
                invariant
                    n == self.rules@.len(),
                    a < n,
                    a + 1 <= b <= n,
                    forall|j: int| a < j < b ==> (self.rules@[a as int].0)@ != (
                    #[trigger] self.rules@[j].0)@,
                decreases n - b,
            {
                if self.rules[a].0 == self.rules[b].0 {
                    return false;
                }
                b += 1;
            }
            a += 1;
        }
        true
    }
}

} // verus!
