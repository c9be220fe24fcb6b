//! Colour codes and border glyphs.

use crate::ansi::lemma_tty_invisible;
use crate::text::chars_of;
use vstd::prelude::*;

verus! {

/// The glyphs that frame a panel.
#[derive(Clone, Copy, Debug, PartialEq, Eq, Structural)]
pub struct BorderStyle {
    pub top_left: char,
    pub top_right: char,
    pub bottom_left: char,
    pub bottom_right: char,
    pub horizontal: char,
    pub vertical: char,
    pub tee_right: char,
}

impl BorderStyle {
    /// Rounded corners: the default.
    pub fn rounded() -> (b: BorderStyle)
        ensures
            b == BorderStyle::spec_rounded(),
    {
        BorderStyle {
            top_left: '╭',
            top_right: '╮',
            bottom_left: '╰',
            bottom_right: '╯',
            horizontal: '─',
            vertical: '│',
            tee_right: '├',
        }
    }

    /// Square corners.
    pub fn sharp() -> (b: BorderStyle)
        ensures
            b == BorderStyle::spec_sharp(),
    {
        BorderStyle {
            top_left: '┌',
            top_right: '┐',
            bottom_left: '└',
            bottom_right: '┘',
            horizontal: '─',
            vertical: '│',
            tee_right: '├',
        }
    }

    /// Double lines.
    pub fn double() -> (b: BorderStyle)
        ensures
            b == BorderStyle::spec_double(),
    {
        BorderStyle {
            top_left: '╔',
            top_right: '╗',
            bottom_left: '╚',
            bottom_right: '╝',
            horizontal: '═',
            vertical: '║',
            tee_right: '╠',
        }
    }

    /// ASCII characters only.
    pub fn ascii() -> (b: BorderStyle)
        ensures
            b == BorderStyle::spec_ascii(),
    {
        BorderStyle {
            top_left: '+',
            top_right: '+',
            bottom_left: '+',
            bottom_right: '+',
            horizontal: '-',
            vertical: '|',
            tee_right: '+',
        }
    }

    /// The glyphs of the rounded style.
    pub open spec fn spec_rounded() -> BorderStyle {
        BorderStyle {
            top_left: '╭',
            top_right: '╮',
            bottom_left: '╰',
            bottom_right: '╯',
            horizontal: '─',
            vertical: '│',
            tee_right: '├',
        }
    }

    /// The glyphs of the sharp style.
    pub open spec fn spec_sharp() -> BorderStyle {
        BorderStyle {
            top_left: '┌',
            top_right: '┐',
            bottom_left: '└',
            bottom_right: '┘',
            horizontal: '─',
            vertical: '│',
            tee_right: '├',
        }
    }

    /// The glyphs of the double style.
    pub open spec fn spec_double() -> BorderStyle {
        BorderStyle {
            top_left: '╔',
            top_right: '╗',
            bottom_left: '╚',
            bottom_right: '╝',
            horizontal: '═',
            vertical: '║',
            tee_right: '╠',
        }
    }

    /// The glyphs of the ASCII style.
    pub open spec fn spec_ascii() -> BorderStyle {
        BorderStyle {
            top_left: '+',
            top_right: '+',
            bottom_left: '+',
            bottom_right: '+',
            horizontal: '-',
            vertical: '|',
            tee_right: '+',
        }
    }
}

/// The colour codes that a rendering is written with, as text.
#[derive(Clone, Copy, Debug)]
pub struct Colors {
    pub green: &'static str,
    pub cyan: &'static str,
    pub yellow: &'static str,
    pub magenta: &'static str,
    pub white: &'static str,
    pub gray: &'static str,
    pub red: &'static str,
    pub reset: &'static str,
}

/// The colour codes as sequences of characters: what contracts speak of.
pub struct Palette {
    pub green: Seq<char>,
    pub cyan: Seq<char>,
    pub yellow: Seq<char>,
    pub magenta: Seq<char>,
    pub white: Seq<char>,
    pub gray: Seq<char>,
    pub red: Seq<char>,
    pub reset: Seq<char>,
}

impl Palette {
    /// The ANSI codes of an interactive terminal.
    pub open spec fn tty() -> Palette {
        Palette {
            green: "\x1b[1;32m"@,
            cyan: "\x1b[36m"@,
            yellow: "\x1b[1;33m"@,
            magenta: "\x1b[35m"@,
            white: "\x1b[37m"@,
            gray: "\x1b[90m"@,
            red: "\x1b[1;31m"@,
            reset: "\x1b[0m"@,
        }
    }

    /// No colour at all: every code is empty.
    pub open spec fn plain() -> Palette {
        Palette {
            green: Seq::empty(),
            cyan: Seq::empty(),
            yellow: Seq::empty(),
            magenta: Seq::empty(),
            white: Seq::empty(),
            gray: Seq::empty(),
            red: Seq::empty(),
            reset: Seq::empty(),
        }
    }
}

impl View for Colors {
    type V = Palette;

    open spec fn view(&self) -> Palette {
        Palette {
            green: self.green@,
            cyan: self.cyan@,
            yellow: self.yellow@,
            magenta: self.magenta@,
            white: self.white@,
            gray: self.gray@,
            red: self.red@,
            reset: self.reset@,
        }
    }
}

impl Colors {
    /// The palette for a terminal that is interactive (`tty`) or not.
    pub fn get(tty: bool) -> (c: Colors)
        ensures
            c@ == if tty {
                Palette::tty()
            } else {
                Palette::plain()
            },
            c@.is_invisible(),
    {
        proof {
            lemma_tty_invisible();
        }
        if tty {
            Colors {
                green: "\x1b[1;32m",
                cyan: "\x1b[36m",
                yellow: "\x1b[1;33m",
                magenta: "\x1b[35m",
                white: "\x1b[37m",
                gray: "\x1b[90m",
                red: "\x1b[1;31m",
                reset: "\x1b[0m",
            }
        } else {
            proof {
                reveal_strlit("");
            }
            let c = Colors {
                green: "",
                cyan: "",
                yellow: "",
                magenta: "",
                white: "",
                gray: "",
                red: "",
                reset: "",
            };
            assert(c@.green =~= Seq::<char>::empty());
            assert(c@ == Palette::plain());
            c
        }
    }
}

/// The colour codes as vectors of characters, ready to be appended.
pub struct Paint {
    pub green: Vec<char>,
    pub cyan: Vec<char>,
    pub yellow: Vec<char>,
    pub magenta: Vec<char>,
    pub white: Vec<char>,
    pub gray: Vec<char>,
    pub red: Vec<char>,
    pub reset: Vec<char>,
}

impl View for Paint {
    type V = Palette;

    open spec fn view(&self) -> Palette {
        Palette {
            green: self.green@,
            cyan: self.cyan@,
            yellow: self.yellow@,
            magenta: self.magenta@,
            white: self.white@,
            gray: self.gray@,
            red: self.red@,
            reset: self.reset@,
        }
    }
}

impl Paint {
    /// Unpacks the codes of `c`.
    pub fn new(c: &Colors) -> (p: Paint)
        ensures
            p@ == c@,
    {
        Paint {
            green: chars_of(c.green),
            cyan: chars_of(c.cyan),
            yellow: chars_of(c.yellow),
            magenta: chars_of(c.magenta),
            white: chars_of(c.white),
            gray: chars_of(c.gray),
            red: chars_of(c.red),
            reset: chars_of(c.reset),
        }
    }
}

} // verus!
