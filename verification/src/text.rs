//! Small helpers for building the text of rendered lines: runs of spaces,
//! runs of a filler glyph, and a line laid out as leading spaces, content
//! and trailing fill.

use vstd::prelude::*;
use vstd::string::StringExecFns;

use crate::width::display_width_of;

verus! {

/// A run of `n` spaces.
pub open spec fn spaces(n: nat) -> Seq<char> {
    Seq::new(n, |i: int| ' ')
}

/// A run of `n` copies of the character `c`.
pub open spec fn char_run(c: char, n: nat) -> Seq<char> {
    Seq::new(n, |i: int| c)
}

/// Relies on `String::from` for `char`: the returned string holds exactly
/// the one character it was built from.
#[verifier::external_body]
pub(crate) fn char_to_string(c: char) -> (r: String)
    ensures
        r@ == seq![c],
{
    String::from(c)
}

/// Appends `n` spaces to `out`.
pub(crate) fn push_spaces(out: &mut String, n: usize)
    ensures
        final(out)@ == old(out)@ + spaces(n as nat),
{
    let mut i: usize = 0;
    proof {
        assert(old(out)@ + spaces(0) =~= old(out)@);
    }
    while i < n
        invariant
            i <= n,
            out@ == old(out)@ + spaces(i as nat),
        decreases n - i,
    {
        out.append(" ");
        proof {
            reveal_strlit(" ");
            assert(" "@ =~= seq![' ']);
            assert(old(out)@ + spaces(i as nat) + " "@ =~= old(out)@ + spaces((i + 1) as nat));
        }
        i = i + 1;
    }
}

/// Builds a run of `n` copies of the character `c`.
pub(crate) fn repeat_char(c: char, n: usize) -> (r: String)
    ensures
        r@ == char_run(c, n as nat),
{
    let glyph = char_to_string(c);
    let mut out = String::new();
    let mut i: usize = 0;
    proof {
        assert(out@ + char_run(c, 0) =~= out@);
        assert(out@ =~= Seq::<char>::empty());
    }
    while i < n
        invariant
            i <= n,
            glyph@ == seq![c],
            out@ == char_run(c, i as nat),
        decreases n - i,
    {
        out.append(glyph.as_str());
        proof {
            assert(char_run(c, i as nat) + seq![c] =~= char_run(c, (i + 1) as nat));
        }
        i = i + 1;
    }
    out
}

/// Builds a run of `n` spaces as a string.
pub(crate) fn spaces_string(n: usize) -> (r: String)
    ensures
        r@ == spaces(n as nat),
{
    let mut out = String::new();
    proof {
        assert(out@ + spaces(n as nat) =~= spaces(n as nat));
    }
    push_spaces(&mut out, n);
    out
}

/// Lays one content line out in a field of `total` columns: `lead` spaces,
/// the content, then spaces up to `total`.
pub(crate) fn layout_line(lead: usize, text: &str, text_width: usize, total: usize) -> (r: String)
    requires
        text_width as nat == display_width_of(text@),
        lead + text_width <= total,
    ensures
        r@ == spaces(lead as nat) + text@ + spaces((total - lead - display_width_of(
            text@,
        )) as nat),
{
    let mut out = String::new();
    proof {
        assert(out@ =~= Seq::<char>::empty());
    }
    push_spaces(&mut out, lead);
    proof {
        assert(Seq::<char>::empty() + spaces(lead as nat) =~= spaces(lead as nat));
    }
    out.append(text);
    push_spaces(&mut out, total - lead - text_width);
    out
}

} // verus!
