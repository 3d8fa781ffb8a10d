//! The human-readable renderer: a pure function of one violation,
//! producing a multi-line excerpt with the severity label, the rule's name
//! and description, the source line, an underline beneath the matched
//! columns, and the rule's optional help text and link.

use vstd::prelude::*;
use vstd::string::*;

use crate::diag::LintError;
use crate::pattern::Rule;

verus! {

/// `n` copies of one character (none when `n` is negative).
pub open spec fn repeat_char(c: char, n: int) -> Seq<char> {
    Seq::new(
        if n >= 0 {
            n as nat
        } else {
            0
        },
        |i: int| c,
    )
}

/// The severity label: hard failures are errors, the rest warnings.
pub open spec fn severity_label(fails: bool) -> Seq<char> {
    if fails {
        "error"@
    } else {
        "warning"@
    }
}

/// The smaller of two values.
pub open spec fn imin(a: int, b: int) -> int {
    if a <= b {
        a
    } else {
        b
    }
}

/// The underline drawn beneath the excerpt line: spaces up to the window's
/// starting column, then carets to the window's ending column when the
/// window ends on its starting line, else to the end of the line; both
/// bounds clamped to the line's length.
pub open spec fn underline_of(e: LintError) -> Seq<char> {
    let line_len = e.line.0@.len() as int;
    let w = e.window@;
    let a = imin(w[0].2.start_col as int, line_len);
    let b = if w.last().2.end_line == w[0].2.start_line {
        imin(w.last().2.end_col as int, line_len)
    } else {
        line_len
    };
    let b2 = if b < a {
        a
    } else {
        b
    };
    repeat_char(' ', a) + repeat_char('^', b2 - a)
}

/// The help line of the rendering, when the rule has help text.
pub open spec fn help_part(r: Rule) -> Seq<char> {
    match r.help {
        Option::Some(h) => "\nhelp: "@ + h@,
        Option::None => Seq::empty(),
    }
}

/// The link line of the rendering, when the rule has one.
pub open spec fn link_part(r: Rule) -> Seq<char> {
    match r.link {
        Option::Some(l) => "\nlink: "@ + l@,
        Option::None => Seq::empty(),
    }
}

/// The full human-readable rendering of one violation.
pub open spec fn rendered_text(e: LintError) -> Seq<char> {
    severity_label(e.fails) + ": "@ + e.rule.name@ + "\n"@ + e.rule.description@ + "\n"@
        + e.line.0@ + "\n"@ + underline_of(e) + help_part(e.rule) + link_part(e.rule)
}

/// Appends `n` copies of one character.
fn push_repeat(s: &mut String, c: char, n: usize)
    ensures
        final(s)@ == old(s)@ + repeat_char(c, n as int),
{
    let mut i: usize = 0;
    proof {
        assert(old(s)@ + repeat_char(c, 0) =~= old(s)@);
    }
    while i < n
        invariant
            0 <= i <= n,
            s@ == old(s)@ + repeat_char(c, i as int),
        decreases n - i,
    {
        s.push(c);
        i += 1;
        proof {
            assert(s@ =~= old(s)@ + repeat_char(c, i as int));
        }
    }
}

/// Renders one violation as display text.
pub fn render_text(e: &LintError) -> (r: String)
    requires
        e.window@.len() > 0,
    ensures
        r@ == rendered_text(*e),
{
    let mut out = String::new();
    if e.fails {
        out.append("error");
    } else {
        out.append("warning");
    }
    out.append(": ");
    out.append(e.rule.name.as_str());
    out.append("\n");
    out.append(e.rule.description.as_str());
    out.append("\n");
    out.append(e.line.0.as_str());
    out.append("\n");
    let line_len = e.line.0.as_str().unicode_len();
    let w0 = &e.window[0];
    let wl = &e.window[e.window.len() - 1];
    let a = if w0.2.start_col <= line_len {
        w0.2.start_col
    } else {
        line_len
    };
    let b = if wl.2.end_line == w0.2.start_line {
        if wl.2.end_col <= line_len {
            wl.2.end_col
        } else {
            line_len
        }
    } else {
        line_len
    };
    let b2 = if b < a {
        a
    } else {
        b
    };
    push_repeat(&mut out, ' ', a);
    push_repeat(&mut out, '^', b2 - a);
    match &e.rule.help {
        Option::Some(h) => {
            out.append("\nhelp: ");
            out.append(h.as_str());
        },
        Option::None => {},
    }
    match &e.rule.link {
        Option::Some(l) => {
            out.append("\nlink: ");
            out.append(l.as_str());
        },
        Option::None => {},
    }
    proof {
        assert(out@ =~= rendered_text(*e));
    }
    out
}

} // verus!
