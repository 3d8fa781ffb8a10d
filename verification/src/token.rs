//! The token model: one flattened lexical unit with its kind, text and
//! source position. A nested group from the tokenizer becomes a synthetic
//! open/close delimiter pair enclosing its flattened contents.

use vstd::prelude::*;
use vstd::string::*;

use crate::pos::{loc_before, loc_le, pos_wf, SourcePosition};

verus! {

/// One atomic token: kind (`"Ident"`, `"Punct"`, `"Literal"`, `"OpenDelim"`
/// or `"CloseDelim"`), text, and position.
#[derive(Debug, PartialEq)]
pub struct Named(pub String, pub String, pub SourcePosition);

impl Clone for Named {
    fn clone(&self) -> (r: Named)
        ensures
            r == *self,
    {
        Named(self.0.clone(), self.1.clone(), self.2)
    }
}

impl Named {
    /// The token's source position.
    pub fn span(&self) -> (r: SourcePosition)
        ensures
            r == self.2,
    {
        self.2
    }
}

/// The shape of a group's enclosing delimiter.
#[derive(Clone, Copy, Debug, PartialEq, Eq, Structural)]
pub enum DelimKind {
    Parenthesis,
    Brace,
    Bracket,
    Invisible,
}

/// The opening and closing characters of a delimiter shape; an invisible
/// delimiter prints as spaces.
pub open spec fn spec_delim_chars(d: DelimKind) -> (char, char) {
    match d {
        DelimKind::Parenthesis => ('(', ')'),
        DelimKind::Brace => ('{', '}'),
        DelimKind::Bracket => ('[', ']'),
        DelimKind::Invisible => (' ', ' '),
    }
}

fn match_delim(d: DelimKind) -> (r: [char; 2])
    ensures
        r@ == seq![spec_delim_chars(d).0, spec_delim_chars(d).1],
{
    match d {
        DelimKind::Parenthesis => ['(', ')'],
        DelimKind::Brace => ['{', '}'],
        DelimKind::Bracket => ['[', ']'],
        DelimKind::Invisible => [' ', ' '],
    }
}

impl Named {
    /// The synthetic token pair standing for a group's delimiters: an
    /// `OpenDelim` token at the opening span and a `CloseDelim` token at the
    /// closing span.
    pub fn delim_pair(d: DelimKind, s1: SourcePosition, s2: SourcePosition) -> (r: [Named; 2])
        ensures
            r@.len() == 2,
            r@[0].0@ == "OpenDelim"@,
            r@[0].1@ == seq![spec_delim_chars(d).0],
            r@[0].2 == s1,
            r@[1].0@ == "CloseDelim"@,
            r@[1].1@ == seq![spec_delim_chars(d).1],
            r@[1].2 == s2,
    {
        let cs = match_delim(d);
        let mut open_text = String::new();
        open_text.push(cs[0]);
        let mut close_text = String::new();
        close_text.push(cs[1]);
        [
            Named(String::from_str("OpenDelim"), open_text, s1),
            Named(String::from_str("CloseDelim"), close_text, s2),
        ]
    }
}

/// A token sequence as the engine requires it: every position well formed
/// and the tokens in document order (each token ends at or before the next
/// one starts).
pub open spec fn wf_tokens(s: Seq<Named>) -> bool {
    &&& forall|i: int| 0 <= i < s.len() ==> pos_wf(#[trigger] s[i].2)
    &&& forall|i: int, j: int|
        0 <= i < j < s.len() ==> loc_le(
            #[trigger] s[i].2.end_line as int,
            s[i].2.end_col as int,
            #[trigger] s[j].2.start_line as int,
            s[j].2.start_col as int,
        )
}

/// Document order between any two tokens follows from the order of each
/// adjacent pair, through the well-formedness of the positions in between.
proof fn lemma_order_chain(s: Seq<Named>, i: int, j: int)
    requires
        forall|k: int| 0 <= k < s.len() ==> pos_wf(#[trigger] s[k].2),
        forall|k: int|
            0 <= k < s.len() - 1 ==> loc_le(
                (#[trigger] s[k]).2.end_line as int,
                s[k].2.end_col as int,
                s[k + 1].2.start_line as int,
                s[k + 1].2.start_col as int,
            ),
        0 <= i < j < s.len(),
    ensures
        loc_le(
            s[i].2.end_line as int,
            s[i].2.end_col as int,
            s[j].2.start_line as int,
            s[j].2.start_col as int,
        ),
    decreases j - i,
{
    if j == i + 1 {
        assert(loc_le(
            s[i].2.end_line as int,
            s[i].2.end_col as int,
            s[i + 1].2.start_line as int,
            s[i + 1].2.start_col as int,
        ));
    } else {
        lemma_order_chain(s, i, j - 1);
        assert(pos_wf(s[j - 1].2));
        assert(loc_le(
            s[j - 1].2.end_line as int,
            s[j - 1].2.end_col as int,
            s[j].2.start_line as int,
            s[j].2.start_col as int,
        ));
    }
}

/// Decides whether a token sequence is well formed: every position well
/// formed and the tokens in document order.
pub fn check_tokens(tokens: &Vec<Named>) -> (r: bool)
    ensures
        r == wf_tokens(tokens@),
{
    let n = tokens.len();
    let mut i: usize = 0;
    while i < n
        invariant
            n == tokens@.len(),
            0 <= i <= n,
            forall|k: int| 0 <= k < i ==> pos_wf(#[trigger] tokens@[k].2),
        decreases n - i,
    {
        let p = &tokens[i].2;
        let ok = p.start_line >= 1 && p.end_line >= 1 && loc_before(
            p.start_line,
            p.start_col,
            p.end_line,
            p.end_col,
        ) && p.byte_start <= p.byte_end && p.start_col < usize::MAX && p.end_col < usize::MAX;
        if !ok {
            return false;
        }
        i += 1;
    }
    let mut j: usize = 0;
    while j + 1 < n
        invariant
            n == tokens@.len(),
            0 <= j,
            j + 1 <= n || j == 0,
            forall|k: int| 0 <= k < tokens@.len() ==> pos_wf(#[trigger] tokens@[k].2),
            forall|k: int|
                0 <= k < j ==> loc_le(
                    (#[trigger] tokens@[k]).2.end_line as int,
                    tokens@[k].2.end_col as int,
                    tokens@[k + 1].2.start_line as int,
                    tokens@[k + 1].2.start_col as int,
                ),
        decreases n - j,
    {
        if loc_before(
            tokens[j + 1].2.start_line,
            tokens[j + 1].2.start_col,
            tokens[j].2.end_line,
            tokens[j].2.end_col,
        ) {
            return false;
        }
        j += 1;
    }
    proof {
        assert forall|a: int, b: int| 0 <= a < b < tokens@.len() implies loc_le(
            (#[trigger] tokens@[a]).2.end_line as int,
            tokens@[a].2.end_col as int,
            (#[trigger] tokens@[b]).2.start_line as int,
            tokens@[b].2.start_col as int,
        ) by {
            lemma_order_chain(tokens@, a, b);
        }
    }
    true
}

} // verus!
