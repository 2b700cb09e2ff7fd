//! Display-width measurement for text that may carry ANSI style escape
//! sequences.
//!
//! The visible width of a line is the sum of the per-character terminal
//! widths of its characters, except that an escape sequence of the form
//! `ESC [ <params> <final byte in 0x40..=0x7E>` occupies no columns and is
//! consumed whole.  A lone `ESC` that does not open such a sequence is
//! measured like any other character.  Truncated sequences never cause a
//! failure: the width of the missing tail is simply zero.

use vstd::prelude::*;
use vstd::string::StrSliceExecFns;

verus! {

/// The escape character that opens an ANSI style sequence.
pub open spec fn esc_char() -> char {
    '\u{1b}'
}

/// A byte in `0x40..=0x7E` ends an ANSI control sequence.
pub open spec fn is_csi_final(c: char) -> bool {
    '\u{40}' <= c && c <= '\u{7e}'
}

/// Terminal width of one visible character: the number of columns the
/// Unicode East-Asian-width tables assign it.  The value is a function of
/// the character alone; it is fixed by the `unicode-width` tables, which
/// are far too large to restate here.
pub uninterp spec fn char_display_width(c: char) -> nat;

/// Relies on `unicode_width::UnicodeWidthChar::width`: the width of a
/// character depends on the character alone; characters in
/// `0x20..=0x7E` are one column wide, and control characters (for which
/// `width` returns `None`) occupy no column.
#[verifier::external_body]
pub(crate) fn char_width(c: char) -> (r: usize)
    ensures
        r as nat == char_display_width(c),
        ' ' <= c && c <= '\u{7e}' ==> r == 1,
        c < ' ' ==> r == 0,
{
    unicode_width::UnicodeWidthChar::width(c).unwrap_or(0)
}

/// Display width of the characters of `s`, starting inside an ANSI control
/// sequence when `in_escape` holds.
pub open spec fn display_width_from(s: Seq<char>, in_escape: bool) -> nat
    decreases s.len(),
{
    if s.len() == 0 {
        0
    } else if in_escape {
        display_width_from(s.skip(1), !is_csi_final(s[0]))
    } else if s[0] == esc_char() && s.len() >= 2 && s[1] == '[' {
        display_width_from(s.skip(2), true)
    } else {
        char_display_width(s[0]) + display_width_from(s.skip(1), false)
    }
}

/// Display width of a line: visible characters measured by their Unicode
/// width, ANSI style sequences measured as zero.
pub open spec fn display_width_of(s: Seq<char>) -> nat {
    display_width_from(s, false)
}

proof fn lemma_skip_skip(s: Seq<char>, i: int, k: int)
    requires
        0 <= i,
        0 <= k,
        i + k <= s.len(),
    ensures
        s.skip(i).skip(k) == s.skip(i + k),
{
    assert(s.skip(i).skip(k) =~= s.skip(i + k));
}

/// Measures the display width of `text`, or returns `None` when the width
/// does not fit in `usize`.
pub fn display_width_checked(text: &str) -> (r: Option<usize>)
    ensures
        match r {
            Some(w) => w as nat == display_width_of(text@),
            None => display_width_of(text@) > usize::MAX,
        },
{
    let n = text.unicode_len();
    let mut i: usize = 0;
    let mut w: usize = 0;
    let mut in_escape: bool = false;
    proof {
        assert(text@.skip(0) =~= text@);
    }
    while i < n
        invariant
            n == text@.len(),
            i <= n,
            display_width_of(text@) == w + display_width_from(text@.skip(i as int), in_escape),
        decreases n - i,
    {
        let ghost s = text@;
        let ghost rest = s.skip(i as int);
        assert(rest[0] == s[i as int]);
        let c = text.get_char(i);
        if in_escape {
            proof {
                lemma_skip_skip(s, i as int, 1);
            }
            in_escape = !(c >= '\u{40}' && c <= '\u{7e}');
            i = i + 1;
        } else if c == '\u{1b}' && i + 1 < n && text.get_char(i + 1) == '[' {
            proof {
                assert(rest[1] == s[i + 1]);
                lemma_skip_skip(s, i as int, 2);
            }
            in_escape = true;
            i = i + 2;
        } else {
            proof {
                lemma_skip_skip(s, i as int, 1);
            }
            let cw = char_width(c);
            match w.checked_add(cw) {
                Some(sum) => {
                    w = sum;
                },
                None => {
                    assert(display_width_of(s) > usize::MAX);
                    return None;
                },
            }
            i = i + 1;
        }
    }
    assert(text@.skip(n as int) =~= Seq::<char>::empty());
    Some(w)
}

/// A complete ANSI control sequence: `ESC [`, any run of non-final bytes,
/// then one final byte.
pub open spec fn is_csi_seq(e: Seq<char>) -> bool {
    &&& e.len() >= 3
    &&& e[0] == esc_char()
    &&& e[1] == '['
    &&& forall|i: int| 2 <= i < e.len() - 1 ==> !is_csi_final(#[trigger] e[i])
    &&& is_csi_final(e[e.len() - 1])
}

proof fn lemma_in_escape_consumed(m: Seq<char>, f: char, s: Seq<char>)
    requires
        forall|i: int| 0 <= i < m.len() ==> !is_csi_final(#[trigger] m[i]),
        is_csi_final(f),
    ensures
        display_width_from(m + seq![f] + s, true) == display_width_from(s, false),
    decreases m.len(),
{
    let t = m + seq![f] + s;
    if m.len() == 0 {
        assert(t[0] == f);
        assert(t.skip(1) =~= s);
    } else {
        assert(t[0] == m[0]);
        assert(t.skip(1) =~= m.skip(1) + seq![f] + s);
        lemma_in_escape_consumed(m.skip(1), f, s);
    }
}

proof fn lemma_csi_prefix_no_width(e: Seq<char>, s: Seq<char>)
    requires
        is_csi_seq(e),
    ensures
        display_width_of(e + s) == display_width_of(s),
{
    let t = e + s;
    assert(t[0] == esc_char() && t[1] == '[');
    let m = e.subrange(2, e.len() - 1);
    let f = e[e.len() - 1];
    assert(t.skip(2) =~= m + seq![f] + s);
    lemma_in_escape_consumed(m, f, s);
}

proof fn lemma_plain_prefix_width(a: Seq<char>, b: Seq<char>)
    requires
        forall|i: int| 0 <= i < a.len() ==> #[trigger] a[i] != esc_char(),
    ensures
        display_width_of(a + b) == display_width_of(a) + display_width_of(b),
    decreases a.len(),
{
    let t = a + b;
    if a.len() == 0 {
        assert(t =~= b);
    } else {
        assert(t[0] == a[0]);
        assert(t.skip(1) =~= a.skip(1) + b);
        assert(a.skip(1)[a.len() - 2] == a[a.len() - 1] || a.len() == 1);
        lemma_plain_prefix_width(a.skip(1), b);
        assert(display_width_of(a) == char_display_width(a[0]) + display_width_of(a.skip(1)));
    }
}

/// Wrapping plain text in ANSI style sequences leaves its display width
/// unchanged: a leading style sequence and a trailing reset sequence both
/// measure as zero columns.
pub proof fn lemma_ansi_wrap_width(e1: Seq<char>, text: Seq<char>, e2: Seq<char>)
    requires
        is_csi_seq(e1),
        is_csi_seq(e2),
        forall|i: int| 0 <= i < text.len() ==> #[trigger] text[i] != esc_char(),
    ensures
        display_width_of(e1 + (text + e2)) == display_width_of(text),
{
    lemma_csi_prefix_no_width(e1, text + e2);
    lemma_plain_prefix_width(text, e2);
    assert(e2 + Seq::<char>::empty() =~= e2);
    lemma_csi_prefix_no_width(e2, Seq::<char>::empty());
}

/// Display width of a line whose width is known to fit in `usize`; see
/// [`display_width_checked`] for the guarded form.
pub fn display_width(text: &str) -> (r: usize)
    requires
        display_width_of(text@) <= usize::MAX,
    ensures
        r as nat == display_width_of(text@),
{
    display_width_checked(text).unwrap()
}

} // verus!
