//! Small text helpers shared by the token model, the diagnostic builder and
//! the renderers.

use vstd::prelude::*;
use vstd::string::*;

verus! {

/// Relies on std's `String::push`: appends the given character to the end of
/// the string.
pub assume_specification[ String::push ](s: &mut String, c: char)
    ensures
        final(s)@ == old(s)@.push(c),
;

/// How many bytes one character occupies when encoded as UTF-8.
pub open spec fn char_utf8_len(c: char) -> int {
    if (c as u32) < 0x80 {
        1
    } else if (c as u32) < 0x800 {
        2
    } else if (c as u32) < 0x10000 {
        3
    } else {
        4
    }
}

/// The UTF-8 byte length of the first `k` characters.
pub open spec fn utf8_len_prefix(s: Seq<char>, k: int) -> int
    decreases k,
{
    if k <= 0 {
        0
    } else {
        utf8_len_prefix(s, k - 1) + if k <= s.len() {
            char_utf8_len(s[k - 1])
        } else {
            0
        }
    }
}

/// The UTF-8 byte length of the whole text.
pub open spec fn utf8_len_of(s: Seq<char>) -> int {
    utf8_len_prefix(s, s.len() as int)
}

/// Byte-length prefixes grow with the prefix, each character adding between
/// one and four bytes.
pub proof fn lemma_utf8_prefix_monotone(s: Seq<char>, k1: int, k2: int)
    requires
        k1 <= k2,
    ensures
        utf8_len_prefix(s, k1) <= utf8_len_prefix(s, k2),
    decreases k2 - k1,
{
    if k1 < k2 {
        lemma_utf8_prefix_monotone(s, k1, k2 - 1);
    }
}

/// Each counted character contributes at least one byte.
pub proof fn lemma_utf8_prefix_at_least(s: Seq<char>, k: int)
    requires
        0 <= k <= s.len(),
    ensures
        utf8_len_prefix(s, k) >= k,
    decreases k,
{
    if k > 0 {
        lemma_utf8_prefix_at_least(s, k - 1);
    }
}

/// The byte offset that a character walk reaches from state `(i, line,
/// col, already-counted bytes excluded)` until it arrives at the 1-based
/// location `(loc_line, loc_col)` or runs out of text: the remaining bytes
/// to add. Lines are counted at `'\n'`; every other character advances the
/// column.
pub open spec fn loc_offset_from(
    s: Seq<char>,
    i: int,
    line: int,
    col: int,
    loc_line: int,
    loc_col: int,
) -> int
    decreases s.len() - i when 0 <= i <= s.len()
{
    if i >= s.len() {
        0
    } else if line + 1 >= loc_line && col + 1 >= loc_col {
        0
    } else if s[i] == '\n' {
        char_utf8_len(s[i]) + loc_offset_from(s, i + 1, line + 1, 0, loc_line, loc_col)
    } else {
        char_utf8_len(s[i]) + loc_offset_from(s, i + 1, line, col + 1, loc_line, loc_col)
    }
}

/// The byte offset of the 1-based location `(loc_line, loc_col)` in the
/// text, counted as a character walk from the start.
pub open spec fn loc_offset(s: Seq<char>, loc_line: int, loc_col: int) -> int {
    loc_offset_from(s, 0, 0, 0, loc_line, loc_col)
}

/// How many bytes the given character occupies in UTF-8.
pub fn utf8_width(c: char) -> (r: usize)
    ensures
        r as int == char_utf8_len(c),
{
    let v = c as u32;
    if v < 0x80 {
        1
    } else if v < 0x800 {
        2
    } else if v < 0x10000 {
        3
    } else {
        4
    }
}

/// The byte offset of the 1-based location `(loc_line, loc_col)` in the
/// text: characters are walked from the start, counting lines at `'\n'`,
/// until the location is reached or the text ends.
pub fn offset_of_location(s: &str, loc_line: usize, loc_col: usize) -> (r: usize)
    requires
        utf8_len_of(s@) <= usize::MAX,
    ensures
        r as int == loc_offset(s@, loc_line as int, loc_col as int),
{
    let n = s.unicode_len();
    proof {
        lemma_utf8_prefix_at_least(s@, n as int);
    }
    let mut i: usize = 0;
    let mut line: usize = 0;
    let mut col: usize = 0;
    let mut offset: usize = 0;
    while i < n
        invariant
            n == s@.len(),
            utf8_len_of(s@) <= usize::MAX,
            0 <= i <= n,
            line <= i,
            col <= i,
            offset as int == utf8_len_prefix(s@, i as int),
            loc_offset(s@, loc_line as int, loc_col as int) == offset + loc_offset_from(
                s@,
                i as int,
                line as int,
                col as int,
                loc_line as int,
                loc_col as int,
            ),
        ensures
            loc_offset(s@, loc_line as int, loc_col as int) == offset,
        decreases n - i,
    {
        if line + 1 >= loc_line && col + 1 >= loc_col {
            break ;
        }
        let c = s.get_char(i);
        proof {
            lemma_utf8_prefix_monotone(s@, i as int + 1, s@.len() as int);
            assert(utf8_len_prefix(s@, i as int + 1) == utf8_len_prefix(s@, i as int)
                + char_utf8_len(s@[i as int]));
        }
        if c == '\n' {
            col = 0;
            line = line + 1;
        } else {
            col = col + 1;
        }
        offset = offset + utf8_width(c);
        i += 1;
    }
    offset
}

} // verus!
