//! Removal of ANSI colour codes, and what it means for a code to be invisible.

use crate::palette::Palette;
use crate::text::{chars_of, string_of};
use vstd::prelude::*;

verus! {

/// The character that starts an escape sequence.
pub const ESC: char = '\x1b';

/// `s` without its escape sequences, read with `esc` telling whether an
/// escape sequence is already open. A sequence opens at `ESC` and closes
/// behind the next `m`.
pub open spec fn strip_from(s: Seq<char>, esc: bool) -> Seq<char>
    decreases s.len(),
{
    if s.len() == 0 {
        Seq::empty()
    } else if s[0] == ESC {
        strip_from(s.drop_first(), true)
    } else if esc {
        strip_from(s.drop_first(), s[0] != 'm')
    } else {
        seq![s[0]] + strip_from(s.drop_first(), false)
    }
}

/// Whether an escape sequence is open at the end of `s`, when `esc` tells
/// whether one was open at its start.
pub open spec fn open_after(s: Seq<char>, esc: bool) -> bool
    decreases s.len(),
{
    if s.len() == 0 {
        esc
    } else if s[0] == ESC {
        open_after(s.drop_first(), true)
    } else if esc {
        open_after(s.drop_first(), s[0] != 'm')
    } else {
        open_after(s.drop_first(), false)
    }
}

/// `s` without its escape sequences.
pub open spec fn strip_ansi(s: Seq<char>) -> Seq<char> {
    strip_from(s, false)
}

/// Whether `s` holds no `ESC`.
pub open spec fn no_escape(s: Seq<char>) -> bool {
    forall|k: int| 0 <= k < s.len() ==> s[k] != ESC
}

/// Whether `code` leaves no trace once escape sequences are removed: it
/// shows nothing and closes every sequence that it opens.
pub open spec fn invisible(code: Seq<char>) -> bool {
    strip_from(code, false) == Seq::<char>::empty() && !open_after(code, false)
}

impl Palette {
    /// Whether every code of the palette is invisible.
    pub open spec fn is_invisible(self) -> bool {
        &&& invisible(self.green)
        &&& invisible(self.cyan)
        &&& invisible(self.yellow)
        &&& invisible(self.magenta)
        &&& invisible(self.white)
        &&& invisible(self.gray)
        &&& invisible(self.red)
        &&& invisible(self.reset)
    }
}

/// Stripping distributes over concatenation, the second part read from
/// where the first one ends.
pub proof fn lemma_strip_concat(a: Seq<char>, b: Seq<char>, esc: bool)
    ensures
        strip_from(a + b, esc) == strip_from(a, esc) + strip_from(b, open_after(a, esc)),
        open_after(a + b, esc) == open_after(b, open_after(a, esc)),
    decreases a.len(),
{
    if a.len() == 0 {
        assert(a + b == b);
    } else {
        let next = if a[0] == ESC {
            true
        } else if esc {
            a[0] != 'm'
        } else {
            false
        };
        assert((a + b).drop_first() == a.drop_first() + b);
        lemma_strip_concat(a.drop_first(), b, next);
    }
}

/// Text without `ESC`, read outside an escape sequence, is left as it is.
pub proof fn lemma_strip_plain(s: Seq<char>)
    requires
        no_escape(s),
    ensures
        strip_from(s, false) == s,
        !open_after(s, false),
    decreases s.len(),
{
    if s.len() > 0 {
        assert(no_escape(s.drop_first())) by {
            assert forall|k: int| 0 <= k < s.drop_first().len() implies s.drop_first()[k]
                != ESC by {
                assert(s.drop_first()[k] == s[k + 1]);
            }
        }
        lemma_strip_plain(s.drop_first());
        assert(seq![s[0]] + s.drop_first() == s);
    }
}

/// An invisible code in front of a text adds nothing to what is left of it.
pub proof fn lemma_strip_code(code: Seq<char>, rest: Seq<char>)
    requires
        invisible(code),
    ensures
        strip_from(code + rest, false) == strip_from(rest, false),
        open_after(code + rest, false) == open_after(rest, false),
{
    lemma_strip_concat(code, rest, false);
    assert(Seq::<char>::empty() + strip_from(rest, false) == strip_from(rest, false));
}

/// Text without `ESC` in front of another text is left as it is.
pub proof fn lemma_strip_text(text: Seq<char>, rest: Seq<char>)
    requires
        no_escape(text),
    ensures
        strip_from(text + rest, false) == text + strip_from(rest, false),
        open_after(text + rest, false) == open_after(rest, false),
{
    lemma_strip_concat(text, rest, false);
    lemma_strip_plain(text);
}

/// Whether `x` shows `y`: once its escape sequences are removed `x` is `y`,
/// and it leaves no sequence open.
pub open spec fn shows(x: Seq<char>, y: Seq<char>) -> bool {
    strip_from(x, false) == y && !open_after(x, false)
}

/// An invisible code shows nothing.
pub proof fn lemma_shows_code(code: Seq<char>)
    requires
        code.len() == 0 || invisible(code),
    ensures
        shows(code, Seq::empty()),
{
}

/// Text without `ESC` shows itself.
pub proof fn lemma_shows_text(text: Seq<char>)
    requires
        no_escape(text),
    ensures
        shows(text, text),
{
    lemma_strip_plain(text);
}

/// Two texts one after the other show what each of them shows.
pub proof fn lemma_shows_concat(a: Seq<char>, ya: Seq<char>, b: Seq<char>, yb: Seq<char>)
    requires
        shows(a, ya),
        shows(b, yb),
    ensures
        shows(a + b, ya + yb),
{
    lemma_strip_concat(a, b, false);
}

/// Text between two invisible codes shows the text.
pub proof fn lemma_shows_tint(color: Seq<char>, text: Seq<char>, reset: Seq<char>)
    requires
        color.len() == 0 || invisible(color),
        reset.len() == 0 || invisible(reset),
        no_escape(text),
    ensures
        shows(color + text + reset, text),
{
    lemma_shows_code(color);
    lemma_shows_code(reset);
    lemma_shows_text(text);
    lemma_shows_concat(color, Seq::empty(), text, text);
    lemma_shows_concat(color + text, Seq::<char>::empty() + text, reset, Seq::empty());
    assert(Seq::<char>::empty() + text + Seq::<char>::empty() == text);
}

/// Part of a text without `ESC` holds none.
pub proof fn lemma_no_escape_part(s: Seq<char>, i: int, j: int)
    requires
        no_escape(s),
        0 <= i <= j <= s.len(),
    ensures
        no_escape(s.subrange(i, j)),
{
    assert forall|k: int| 0 <= k < s.subrange(i, j).len() implies s.subrange(i, j)[k] != ESC by {
        assert(s.subrange(i, j)[k] == s[i + k]);
    }
}

/// Two texts without `ESC`, one after the other, hold none.
pub proof fn lemma_no_escape_concat(a: Seq<char>, b: Seq<char>)
    requires
        no_escape(a),
        no_escape(b),
    ensures
        no_escape(a + b),
{
    assert forall|k: int| 0 <= k < (a + b).len() implies (a + b)[k] != ESC by {
        if k < a.len() {
            assert((a + b)[k] == a[k]);
        } else {
            assert((a + b)[k] == b[k - a.len()]);
        }
    }
}

/// The codes of an interactive terminal are invisible.
pub proof fn lemma_tty_invisible()
    ensures
        Palette::tty().is_invisible(),
{
    reveal_strlit("\x1b[1;32m");
    reveal_strlit("\x1b[36m");
    reveal_strlit("\x1b[1;33m");
    reveal_strlit("\x1b[35m");
    reveal_strlit("\x1b[37m");
    reveal_strlit("\x1b[90m");
    reveal_strlit("\x1b[1;31m");
    reveal_strlit("\x1b[0m");
    reveal_with_fuel(strip_from, 9);
    reveal_with_fuel(open_after, 9);
    assert(invisible("\x1b[1;32m"@));
    assert(invisible("\x1b[36m"@));
    assert(invisible("\x1b[1;33m"@));
    assert(invisible("\x1b[35m"@));
    assert(invisible("\x1b[37m"@));
    assert(invisible("\x1b[90m"@));
    assert(invisible("\x1b[1;31m"@));
    assert(invisible("\x1b[0m"@));
}

/// Removes the escape sequences from `s`.
pub fn strip_codes(s: &[char]) -> (out: Vec<char>)
    ensures
        out@ == strip_ansi(s@),
{
    let mut out: Vec<char> = Vec::new();
    let mut esc = false;
    let mut k: usize = 0;
    assert(s@.skip(0) == s@);
    while k < s.len()
        invariant
            k <= s@.len(),
            out@ + strip_from(s@.skip(k as int), esc) == strip_ansi(s@),
        decreases s@.len() - k,
    {
        let c = s[k];
        assert(s@.skip(k as int).drop_first() == s@.skip(k + 1));
        assert(s@.skip(k as int)[0] == c);
        if c == ESC {
            esc = true;
        } else if esc {
            if c == 'm' {
                esc = false;
            }
        } else {
            out.push(c);
        }
        k += 1;
    }
    out
}

/// Removes the ANSI escape sequences from `s`: everything from an `ESC` to
/// the next `m`, both included. A sequence that is never closed takes the
/// rest of the text with it.
pub fn strip_ansi_codes(s: &str) -> (out: String)
    ensures
        out@ == strip_ansi(s@),
{
    let v = chars_of(s);
    let r = strip_codes(v.as_slice());
    string_of(r.as_slice())
}

} // verus!
