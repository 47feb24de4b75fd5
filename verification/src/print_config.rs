//! The print configuration: the glyph set, the indentation width and the
//! styling of labels, bundled in one immutable value that a whole render
//! call shares.

use crate::style::{plain_style, Color, Style};
use vstd::prelude::*;
use vstd::string::StringExecFns;

verus! {

/// The five glyph strings of a configuration.
///
/// Each visited node's line starts with one continuation glyph per ancestor
/// level and one branch glyph at the node's own level; the root line starts
/// with `root` alone.
#[derive(Debug)]
pub struct IndentChars {
    /// The branch glyph of a node that has further siblings after it.
    pub down_and_right: String,
    /// The branch glyph of a node that is the last child of its parent.
    pub down_and_right_last: String,
    /// The continuation glyph under an ancestor that has further siblings.
    pub vertical: String,
    /// The continuation glyph under an ancestor that was itself a last
    /// child; conventionally blank.
    pub vertical_last: String,
    /// The prefix of the root's own line; conventionally empty.
    pub root: String,
}

/// The mathematical content of a [`PrintConfig`]: every field that the
/// rendering depends on, as plain ghost values.
pub ghost struct ConfigView {
    /// The column width of one ancestor level.
    pub indent: int,
    /// The branch glyph of a node with further siblings.
    pub down_and_right: Seq<char>,
    /// The branch glyph of a last child.
    pub down_and_right_last: Seq<char>,
    /// The continuation glyph under an ancestor with further siblings.
    pub vertical: Seq<char>,
    /// The continuation glyph under an ancestor that was a last child.
    pub vertical_last: Seq<char>,
    /// The prefix of the root's own line.
    pub root: Seq<char>,
    /// Whether styles are applied at all.
    pub styled: bool,
    /// The style of leaf labels.
    pub leaf: Style,
    /// The style of branch labels.
    pub branch: Style,
}

/// The immutable bundle of glyphs, indentation and styles governing one
/// render call.
#[derive(Debug)]
pub struct PrintConfig {
    /// The column width of one ancestor level: a continuation glyph is
    /// padded with `indent - 1` spaces, a branch glyph with a single space.
    /// An indent of zero removes the padding altogether.
    pub indent: usize,
    /// The glyph set.
    pub chars: IndentChars,
    /// Whether the label styles are applied; with `false` every label is
    /// painted with the plain style and the output is plain text.
    pub styled: bool,
    /// The style of leaf labels (nodes without children).
    pub leaf: Style,
    /// The style of branch labels (nodes with children).
    pub branch: Style,
}

impl View for PrintConfig {
    type V = ConfigView;

    open spec fn view(&self) -> ConfigView {
        ConfigView {
            indent: self.indent as int,
            down_and_right: self.chars.down_and_right@,
            down_and_right_last: self.chars.down_and_right_last@,
            vertical: self.chars.vertical@,
            vertical_last: self.chars.vertical_last@,
            root: self.chars.root@,
            styled: self.styled,
            leaf: self.leaf,
            branch: self.branch,
        }
    }
}

/// The style that the engine hands to a node's own rendering: the leaf style
/// for a leaf, the branch style for a node with children, and the plain
/// style whenever styling is disabled.
pub open spec fn node_style(cv: ConfigView, is_leaf: bool) -> Style {
    if !cv.styled {
        plain_style()
    } else if is_leaf {
        cv.leaf
    } else {
        cv.branch
    }
}

/// The default configuration: UTF-8 glyphs, indent 4, styling on with both
/// styles plain.
pub open spec fn default_view() -> ConfigView {
    ConfigView {
        indent: 4,
        down_and_right: "├──"@,
        down_and_right_last: "└──"@,
        vertical: "│"@,
        vertical_last: " "@,
        root: ""@,
        styled: true,
        leaf: plain_style(),
        branch: plain_style(),
    }
}

/// The ASCII-only configuration: same layout as the default, glyphs drawn
/// from ASCII alone.
pub open spec fn ascii_view() -> ConfigView {
    ConfigView {
        indent: 4,
        down_and_right: "|--"@,
        down_and_right_last: "`--"@,
        vertical: "|"@,
        vertical_last: " "@,
        root: ""@,
        styled: true,
        leaf: plain_style(),
        branch: plain_style(),
    }
}

/// The colored variant of the default configuration: branch labels bold
/// blue, leaf labels plain.
pub open spec fn colored_view() -> ConfigView {
    ConfigView {
        branch: Style { foreground: Some(Color::Blue), bold: true, ..plain_style() },
        ..default_view()
    }
}

impl IndentChars {
    /// The UTF-8 glyph set of the default configuration.
    pub fn utf8() -> (r: IndentChars)
        ensures
            r.down_and_right@ == "├──"@,
            r.down_and_right_last@ == "└──"@,
            r.vertical@ == "│"@,
            r.vertical_last@ == " "@,
            r.root@ == ""@,
    {
        IndentChars {
            down_and_right: String::from_str("├──"),
            down_and_right_last: String::from_str("└──"),
            vertical: String::from_str("│"),
            vertical_last: String::from_str(" "),
            root: String::from_str(""),
        }
    }

    /// The ASCII glyph set.
    pub fn ascii() -> (r: IndentChars)
        ensures
            r.down_and_right@ == "|--"@,
            r.down_and_right_last@ == "`--"@,
            r.vertical@ == "|"@,
            r.vertical_last@ == " "@,
            r.root@ == ""@,
    {
        IndentChars {
            down_and_right: String::from_str("|--"),
            down_and_right_last: String::from_str("`--"),
            vertical: String::from_str("|"),
            vertical_last: String::from_str(" "),
            root: String::from_str(""),
        }
    }
}

impl Default for PrintConfig {
    /// The default configuration: UTF-8 glyphs, indent 4, plain styles.
    fn default() -> (c: PrintConfig)
        ensures
            c@ == default_view(),
    {
        PrintConfig {
            indent: 4,
            chars: IndentChars::utf8(),
            styled: true,
            leaf: Style::default(),
            branch: Style::default(),
        }
    }
}

impl PrintConfig {
    /// The ASCII-only preset.
    pub fn ascii() -> (c: PrintConfig)
        ensures
            c@ == ascii_view(),
    {
        PrintConfig {
            indent: 4,
            chars: IndentChars::ascii(),
            styled: true,
            leaf: Style::default(),
            branch: Style::default(),
        }
    }

    /// The colored preset: the default glyphs with bold blue branch labels.
    pub fn colored() -> (c: PrintConfig)
        ensures
            c@ == colored_view(),
    {
        let leaf = Style::default();
        let mut branch = Style::default();
        branch.foreground = Some(Color::Blue);
        branch.bold = true;
        PrintConfig { indent: 4, chars: IndentChars::utf8(), styled: true, leaf, branch }
    }

    /// The style for a node's own label under this configuration.
    pub fn style_for(&self, is_leaf: bool) -> (s: Style)
        ensures
            s == node_style(self@, is_leaf),
    {
        if !self.styled {
            Style::default()
        } else if is_leaf {
            self.leaf
        } else {
            self.branch
        }
    }

    /// Paint `text` as a leaf label.
    pub fn paint_leaf(&self, text: &str) -> (r: String)
        ensures
            r@ == node_style(self@, true).painted(text@),
    {
        self.style_for(true).paint(text)
    }

    /// Paint `text` as a branch label.
    pub fn paint_branch(&self, text: &str) -> (r: String)
        ensures
            r@ == node_style(self@, false).painted(text@),
    {
        self.style_for(false).paint(text)
    }
}

} // verus!
