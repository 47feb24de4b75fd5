//! The style model: a styling directive for text, and the pure function that
//! wraps text in the matching terminal control sequences.

use vstd::prelude::*;
use vstd::string::StringExecFns;

verus! {

/// One of the eight base terminal colors, usable as a foreground or a
/// background color of a [`Style`].
#[derive(Clone, Copy, Debug)]
pub enum Color {
    Black,
    Red,
    Green,
    Yellow,
    Blue,
    Purple,
    Cyan,
    White,
}

/// The control sequence that switches the foreground to color `c`.
pub open spec fn fg_mark(c: Color) -> Seq<char> {
    match c {
        Color::Black => "\u{1b}[30m"@,
        Color::Red => "\u{1b}[31m"@,
        Color::Green => "\u{1b}[32m"@,
        Color::Yellow => "\u{1b}[33m"@,
        Color::Blue => "\u{1b}[34m"@,
        Color::Purple => "\u{1b}[35m"@,
        Color::Cyan => "\u{1b}[36m"@,
        Color::White => "\u{1b}[37m"@,
    }
}

/// The control sequence that switches the background to color `c`.
pub open spec fn bg_mark(c: Color) -> Seq<char> {
    match c {
        Color::Black => "\u{1b}[40m"@,
        Color::Red => "\u{1b}[41m"@,
        Color::Green => "\u{1b}[42m"@,
        Color::Yellow => "\u{1b}[43m"@,
        Color::Blue => "\u{1b}[44m"@,
        Color::Purple => "\u{1b}[45m"@,
        Color::Cyan => "\u{1b}[46m"@,
        Color::White => "\u{1b}[47m"@,
    }
}

fn fg_mark_str(c: Color) -> (r: &'static str)
    ensures
        r@ == fg_mark(c),
{
    match c {
        Color::Black => "\u{1b}[30m",
        Color::Red => "\u{1b}[31m",
        Color::Green => "\u{1b}[32m",
        Color::Yellow => "\u{1b}[33m",
        Color::Blue => "\u{1b}[34m",
        Color::Purple => "\u{1b}[35m",
        Color::Cyan => "\u{1b}[36m",
        Color::White => "\u{1b}[37m",
    }
}

fn bg_mark_str(c: Color) -> (r: &'static str)
    ensures
        r@ == bg_mark(c),
{
    match c {
        Color::Black => "\u{1b}[40m",
        Color::Red => "\u{1b}[41m",
        Color::Green => "\u{1b}[42m",
        Color::Yellow => "\u{1b}[43m",
        Color::Blue => "\u{1b}[44m",
        Color::Purple => "\u{1b}[45m",
        Color::Cyan => "\u{1b}[46m",
        Color::White => "\u{1b}[47m",
    }
}

/// A styling directive: an optional foreground color, an optional background
/// color, and decoration flags.  A style with nothing set paints text
/// unchanged.
#[derive(Clone, Copy, Debug)]
pub struct Style {
    /// The foreground color, if any.
    pub foreground: Option<Color>,
    /// The background color, if any.
    pub background: Option<Color>,
    /// Bold decoration.
    pub bold: bool,
    /// Dimmed decoration.
    pub dimmed: bool,
    /// Italic decoration.
    pub italic: bool,
    /// Underline decoration.
    pub underline: bool,
    /// Blinking decoration.
    pub blink: bool,
    /// Swapped foreground and background.
    pub reverse: bool,
    /// Hidden (invisible) text.
    pub hidden: bool,
    /// Struck-through text.
    pub strikethrough: bool,
}

/// The style with no attribute set: it paints every text unchanged.
pub open spec fn plain_style() -> Style {
    Style {
        foreground: None,
        background: None,
        bold: false,
        dimmed: false,
        italic: false,
        underline: false,
        blink: false,
        reverse: false,
        hidden: false,
        strikethrough: false,
    }
}

impl Style {
    /// Whether no attribute at all is set.
    pub open spec fn is_plain(self) -> bool {
        &&& self.foreground is None
        &&& self.background is None
        &&& !self.bold
        &&& !self.dimmed
        &&& !self.italic
        &&& !self.underline
        &&& !self.blink
        &&& !self.reverse
        &&& !self.hidden
        &&& !self.strikethrough
    }

    /// The control sequences that enable this style's attributes, in a fixed
    /// order: decorations first, then the foreground, then the background.
    pub open spec fn start_marks(self) -> Seq<char> {
        (if self.bold {
            "\u{1b}[1m"@
        } else {
            Seq::<char>::empty()
        }) + (if self.dimmed {
            "\u{1b}[2m"@
        } else {
            Seq::<char>::empty()
        }) + (if self.italic {
            "\u{1b}[3m"@
        } else {
            Seq::<char>::empty()
        }) + (if self.underline {
            "\u{1b}[4m"@
        } else {
            Seq::<char>::empty()
        }) + (if self.blink {
            "\u{1b}[5m"@
        } else {
            Seq::<char>::empty()
        }) + (if self.reverse {
            "\u{1b}[7m"@
        } else {
            Seq::<char>::empty()
        }) + (if self.hidden {
            "\u{1b}[8m"@
        } else {
            Seq::<char>::empty()
        }) + (if self.strikethrough {
            "\u{1b}[9m"@
        } else {
            Seq::<char>::empty()
        }) + (match self.foreground {
            Some(c) => fg_mark(c),
            None => Seq::<char>::empty(),
        }) + (match self.background {
            Some(c) => bg_mark(c),
            None => Seq::<char>::empty(),
        })
    }

    /// What painting `text` with this style yields: the text unchanged for a
    /// plain style, and otherwise the text between the enabling control
    /// sequences and the single reset sequence, so that styling never leaks
    /// past the painted text.
    pub open spec fn painted(self, text: Seq<char>) -> Seq<char> {
        if self.is_plain() {
            text
        } else {
            self.start_marks() + text + "\u{1b}[0m"@
        }
    }

    /// Whether no attribute at all is set, as executable code.
    pub fn is_unstyled(&self) -> (r: bool)
        ensures
            r == self.is_plain(),
    {
        self.foreground.is_none() && self.background.is_none() && !self.bold && !self.dimmed
            && !self.italic && !self.underline && !self.blink && !self.reverse && !self.hidden
            && !self.strikethrough
    }

    /// Paint `text` with this style.  A plain style returns the text
    /// byte-for-byte unchanged; any other style wraps it in control
    /// sequences and always appends the reset sequence.
    pub fn paint(&self, text: &str) -> (r: String)
        ensures
            r@ == self.painted(text@),
    {
        if self.is_unstyled() {
            return text.to_owned();
        }
        let mut r = String::new();
        if self.bold {
            r.append("\u{1b}[1m");
        }
        if self.dimmed {
            r.append("\u{1b}[2m");
        }
        if self.italic {
            r.append("\u{1b}[3m");
        }
        if self.underline {
            r.append("\u{1b}[4m");
        }
        if self.blink {
            r.append("\u{1b}[5m");
        }
        if self.reverse {
            r.append("\u{1b}[7m");
        }
        if self.hidden {
            r.append("\u{1b}[8m");
        }
        if self.strikethrough {
            r.append("\u{1b}[9m");
        }
        match self.foreground {
            Some(c) => r.append(fg_mark_str(c)),
            None => (),
        }
        match self.background {
            Some(c) => r.append(bg_mark_str(c)),
            None => (),
        }
        r.append(text);
        r.append("\u{1b}[0m");
        proof {
            assert(r@ =~= self.start_marks() + text@ + "\u{1b}[0m"@);
        }
        r
    }
}

impl Default for Style {
    /// The plain style.
    fn default() -> (r: Style)
        ensures
            r == plain_style(),
    {
        Style {
            foreground: None,
            background: None,
            bold: false,
            dimmed: false,
            italic: false,
            underline: false,
            blink: false,
            reverse: false,
            hidden: false,
            strikethrough: false,
        }
    }
}

} // verus!
