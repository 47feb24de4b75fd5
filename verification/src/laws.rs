//! Properties of the rendering, stated and proved once and for all: what a
//! single node's output is, which sibling gets the "last" glyph, that
//! sibling columns align, that rendering is deterministic, and that styles
//! never influence the tree's shape.

use crate::item::Tree;
use crate::print_config::{node_style, ConfigView};
use crate::output::{bar_unit, bars, branch_unit, line_prefix, rendered, rendered_children};
use crate::style::{bg_mark, fg_mark, plain_style, Color, Style};
use vstd::prelude::*;

verus! {

/// A tree of depth zero renders as exactly one line: the node's painted
/// label and the line break, with no branch glyph before it (the root
/// prefix being empty).
pub proof fn lemma_single_node_line(t: Tree, cv: ConfigView)
    requires
        t.children.len() == 0,
        cv.root.len() == 0,
    ensures
        rendered(t, cv, Seq::empty()) == node_style(cv, true).painted(t.label) + "\n"@,
{
    assert(cv.root =~= Seq::<char>::empty());
    assert(rendered(t, cv, Seq::empty()) =~= node_style(cv, true).painted(t.label) + "\n"@);
}

/// In a sibling group of `n` children, the line of the child at position
/// `i` starts with the ancestors' continuation bars and then the branch
/// glyph, and the "last" branch glyph is chosen exactly for the last
/// sibling, `i == n - 1`; every other sibling gets the standard glyph.
pub proof fn lemma_branch_glyph(cv: ConfigView, state: Seq<bool>, n: int, i: int)
    requires
        0 <= i < n,
    ensures
        line_prefix(cv, state.push(i == n - 1)) == bars(cv, state) + (if i == n - 1 {
            cv.down_and_right_last
        } else {
            cv.down_and_right
        }) + (if cv.indent > 0 {
            " "@
        } else {
            Seq::<char>::empty()
        }),
{
    let st = state.push(i == n - 1);
    assert(st.drop_last() =~= state);
    assert(st.last() == (i == n - 1));
    assert(line_prefix(cv, st) =~= bars(cv, state) + (if i == n - 1 {
        cv.down_and_right_last
    } else {
        cv.down_and_right
    }) + (if cv.indent > 0 {
        " "@
    } else {
        Seq::<char>::empty()
    }));
}

/// Sibling columns align: when the two branch glyphs are equally wide, the
/// content of any two siblings of one group begins at the same character
/// column, whichever of them is the last one.
pub proof fn lemma_sibling_alignment(cv: ConfigView, state: Seq<bool>, n: int, i: int, j: int)
    requires
        0 <= i < n,
        0 <= j < n,
        cv.down_and_right.len() == cv.down_and_right_last.len(),
    ensures
        line_prefix(cv, state.push(i == n - 1)).len() == line_prefix(
            cv,
            state.push(j == n - 1),
        ).len(),
{
    lemma_branch_glyph(cv, state, n, i);
    lemma_branch_glyph(cv, state, n, j);
}

/// Rendering is deterministic: the text of a render is a function of the
/// tree and the configuration alone, so rendering the same tree with the
/// same configuration twice produces byte-identical output.  The engine's
/// postcondition pins each successful render's output to `rendered`.
pub proof fn lemma_render_deterministic(t: Tree, cv: ConfigView, out1: Seq<char>, out2: Seq<char>)
    requires
        out1 == rendered(t, cv, Seq::empty()),
        out2 == rendered(t, cv, Seq::empty()),
    ensures
        out1 == out2,
{
}

/// Whether two configurations agree on everything that shapes the output's
/// glyphs and indentation: only their styling may differ.
pub open spec fn same_shape(cv1: ConfigView, cv2: ConfigView) -> bool {
    cv2 == ConfigView { styled: cv2.styled, leaf: cv2.leaf, branch: cv2.branch, ..cv1 }
}

/// The indentation of a line never depends on the styles: two
/// configurations of the same shape give every node the same prefix.
pub proof fn lemma_prefix_ignores_styles(cv1: ConfigView, cv2: ConfigView, state: Seq<bool>)
    requires
        same_shape(cv1, cv2),
    ensures
        line_prefix(cv1, state) == line_prefix(cv2, state),
{
    lemma_bars_ignore_styles(cv1, cv2, state.drop_last());
    if state.len() != 0 {
        assert(branch_unit(cv1, state.last()) == branch_unit(cv2, state.last()));
    }
}

/// The continuation bars never depend on the styles.
pub proof fn lemma_bars_ignore_styles(cv1: ConfigView, cv2: ConfigView, anc: Seq<bool>)
    requires
        same_shape(cv1, cv2),
    ensures
        bars(cv1, anc) == bars(cv2, anc),
    decreases anc.len(),
{
    if anc.len() != 0 {
        lemma_bars_ignore_styles(cv1, cv2, anc.drop_last());
        assert(bar_unit(cv1, anc.last()) == bar_unit(cv2, anc.last()));
    }
}

/// Style-disabled rendering is a pure function of the text content and the
/// glyphs alone: with styling disabled, two configurations of the same
/// shape render every tree identically, whatever styles they carry.
pub proof fn lemma_unstyled_pure(t: Tree, cv1: ConfigView, cv2: ConfigView, state: Seq<bool>)
    requires
        same_shape(cv1, cv2),
        !cv1.styled,
        !cv2.styled,
    ensures
        rendered(t, cv1, state) == rendered(t, cv2, state),
    decreases t, 0int,
{
    lemma_prefix_ignores_styles(cv1, cv2, state);
    assert(node_style(cv1, t.children.len() == 0) == plain_style());
    assert(node_style(cv2, t.children.len() == 0) == plain_style());
    lemma_unstyled_pure_children(t.children, cv1, cv2, state, 0);
}

/// The child lists of [`lemma_unstyled_pure`], rendered from position `i`.
pub proof fn lemma_unstyled_pure_children(
    cs: Seq<Tree>,
    cv1: ConfigView,
    cv2: ConfigView,
    state: Seq<bool>,
    i: int,
)
    requires
        same_shape(cv1, cv2),
        !cv1.styled,
        !cv2.styled,
    ensures
        rendered_children(cs, cv1, state, i) == rendered_children(cs, cv2, state, i),
    decreases cs, cs.len() - i,
{
    if 0 <= i < cs.len() {
        lemma_unstyled_pure(cs[i], cv1, cv2, state.push(i == cs.len() - 1));
        lemma_unstyled_pure_children(cs, cv1, cv2, state, i + 1);
    }
}

/// The number of occurrences of `c` in `s`.
pub open spec fn count_char(s: Seq<char>, c: char) -> int
    decreases s.len(),
{
    if s.len() == 0 {
        0
    } else {
        count_char(s.drop_last(), c) + (if s.last() == c {
            1int
        } else {
            0int
        })
    }
}

/// Counting distributes over concatenation.
pub proof fn lemma_count_concat(a: Seq<char>, b: Seq<char>, c: char)
    ensures
        count_char(a + b, c) == count_char(a, c) + count_char(b, c),
    decreases b.len(),
{
    if b.len() == 0 {
        assert(a + b =~= a);
    } else {
        lemma_count_concat(a, b.drop_last(), c);
        assert((a + b).drop_last() =~= a + b.drop_last());
        assert((a + b).last() == b.last());
    }
}

/// Whether `s` holds no line break.
pub open spec fn newline_free(s: Seq<char>) -> bool {
    forall|i: int| 0 <= i < s.len() ==> s[i] != '\n'
}

/// A text without line breaks counts none.
pub proof fn lemma_count_newline_free(s: Seq<char>)
    requires
        newline_free(s),
    ensures
        count_char(s, '\n') == 0,
    decreases s.len(),
{
    if s.len() != 0 {
        assert(forall|i: int| 0 <= i < s.drop_last().len() ==> s.drop_last()[i] == s[i]);
        lemma_count_newline_free(s.drop_last());
    }
}

/// No foreground mark holds a line break.
pub proof fn lemma_fg_mark_newline_free(c: Color)
    ensures
        newline_free(fg_mark(c)),
{
    reveal_strlit("\u{1b}[30m");
    reveal_strlit("\u{1b}[31m");
    reveal_strlit("\u{1b}[32m");
    reveal_strlit("\u{1b}[33m");
    reveal_strlit("\u{1b}[34m");
    reveal_strlit("\u{1b}[35m");
    reveal_strlit("\u{1b}[36m");
    reveal_strlit("\u{1b}[37m");
}

/// No background mark holds a line break.
pub proof fn lemma_bg_mark_newline_free(c: Color)
    ensures
        newline_free(bg_mark(c)),
{
    reveal_strlit("\u{1b}[40m");
    reveal_strlit("\u{1b}[41m");
    reveal_strlit("\u{1b}[42m");
    reveal_strlit("\u{1b}[43m");
    reveal_strlit("\u{1b}[44m");
    reveal_strlit("\u{1b}[45m");
    reveal_strlit("\u{1b}[46m");
    reveal_strlit("\u{1b}[47m");
}

/// Concatenation keeps texts free of line breaks.
pub proof fn lemma_newline_free_concat(a: Seq<char>, b: Seq<char>)
    requires
        newline_free(a),
        newline_free(b),
    ensures
        newline_free(a + b),
{
    assert forall|i: int| 0 <= i < (a + b).len() implies (a + b)[i] != '\n' by {
        if i < a.len() {
            assert((a + b)[i] == a[i]);
        } else {
            assert((a + b)[i] == b[i - a.len()]);
        }
    }
}

/// No control sequence that a style emits holds a line break.
pub proof fn lemma_marks_newline_free(st: Style)
    ensures
        newline_free(st.start_marks()),
        newline_free("\u{1b}[0m"@),
{
    reveal_strlit("\u{1b}[0m");
    reveal_strlit("\u{1b}[1m");
    reveal_strlit("\u{1b}[2m");
    reveal_strlit("\u{1b}[3m");
    reveal_strlit("\u{1b}[4m");
    reveal_strlit("\u{1b}[5m");
    reveal_strlit("\u{1b}[7m");
    reveal_strlit("\u{1b}[8m");
    reveal_strlit("\u{1b}[9m");
    let e = Seq::<char>::empty();
    let p1: Seq<char> = if st.bold { "\u{1b}[1m"@ } else { e };
    let p2: Seq<char> = if st.dimmed { "\u{1b}[2m"@ } else { e };
    let p3: Seq<char> = if st.italic { "\u{1b}[3m"@ } else { e };
    let p4: Seq<char> = if st.underline { "\u{1b}[4m"@ } else { e };
    let p5: Seq<char> = if st.blink { "\u{1b}[5m"@ } else { e };
    let p6: Seq<char> = if st.reverse { "\u{1b}[7m"@ } else { e };
    let p7: Seq<char> = if st.hidden { "\u{1b}[8m"@ } else { e };
    let p8: Seq<char> = if st.strikethrough { "\u{1b}[9m"@ } else { e };
    let p9: Seq<char> = match st.foreground {
        Some(c) => fg_mark(c),
        None => e,
    };
    let p10: Seq<char> = match st.background {
        Some(c) => bg_mark(c),
        None => e,
    };
    if st.foreground is Some {
        lemma_fg_mark_newline_free(st.foreground->0);
    }
    if st.background is Some {
        lemma_bg_mark_newline_free(st.background->0);
    }
    lemma_newline_free_concat(p1, p2);
    lemma_newline_free_concat(p1 + p2, p3);
    lemma_newline_free_concat(p1 + p2 + p3, p4);
    lemma_newline_free_concat(p1 + p2 + p3 + p4, p5);
    lemma_newline_free_concat(p1 + p2 + p3 + p4 + p5, p6);
    lemma_newline_free_concat(p1 + p2 + p3 + p4 + p5 + p6, p7);
    lemma_newline_free_concat(p1 + p2 + p3 + p4 + p5 + p6 + p7, p8);
    lemma_newline_free_concat(p1 + p2 + p3 + p4 + p5 + p6 + p7 + p8, p9);
    lemma_newline_free_concat(p1 + p2 + p3 + p4 + p5 + p6 + p7 + p8 + p9, p10);
    assert(st.start_marks() == p1 + p2 + p3 + p4 + p5 + p6 + p7 + p8 + p9 + p10);
}

/// Painting never changes the number of line breaks: the control sequences
/// hold none.
pub proof fn lemma_painted_line_count(st: Style, text: Seq<char>)
    ensures
        count_char(st.painted(text), '\n') == count_char(text, '\n'),
{
    if !st.is_plain() {
        lemma_marks_newline_free(st);
        lemma_count_newline_free(st.start_marks());
        lemma_count_newline_free("\u{1b}[0m"@);
        lemma_count_concat(st.start_marks(), text, '\n');
        lemma_count_concat(st.start_marks() + text, "\u{1b}[0m"@, '\n');
    }
}

/// Enabling or disabling style attributes never changes the line count:
/// two configurations of the same shape render every tree with the same
/// number of line breaks, whatever their styles embed.
pub proof fn lemma_line_count_ignores_styles(
    t: Tree,
    cv1: ConfigView,
    cv2: ConfigView,
    state: Seq<bool>,
)
    requires
        same_shape(cv1, cv2),
    ensures
        count_char(rendered(t, cv1, state), '\n') == count_char(rendered(t, cv2, state), '\n'),
    decreases t, 0int,
{
    lemma_prefix_ignores_styles(cv1, cv2, state);
    let pre = line_prefix(cv1, state);
    let leafy = t.children.len() == 0;
    let lab1 = node_style(cv1, leafy).painted(t.label);
    let lab2 = node_style(cv2, leafy).painted(t.label);
    lemma_painted_line_count(node_style(cv1, leafy), t.label);
    lemma_painted_line_count(node_style(cv2, leafy), t.label);
    lemma_count_concat(pre, lab1, '\n');
    lemma_count_concat(pre, lab2, '\n');
    lemma_count_concat(pre + lab1, "\n"@, '\n');
    lemma_count_concat(pre + lab2, "\n"@, '\n');
    lemma_count_concat(pre + lab1 + "\n"@, rendered_children(t.children, cv1, state, 0), '\n');
    lemma_count_concat(pre + lab2 + "\n"@, rendered_children(t.children, cv2, state, 0), '\n');
    lemma_line_count_ignores_styles_children(t.children, cv1, cv2, state, 0);
}

/// The child lists of [`lemma_line_count_ignores_styles`], from position `i`.
pub proof fn lemma_line_count_ignores_styles_children(
    cs: Seq<Tree>,
    cv1: ConfigView,
    cv2: ConfigView,
    state: Seq<bool>,
    i: int,
)
    requires
        same_shape(cv1, cv2),
    ensures
        count_char(rendered_children(cs, cv1, state, i), '\n') == count_char(
            rendered_children(cs, cv2, state, i),
            '\n',
        ),
    decreases cs, cs.len() - i,
{
    if 0 <= i < cs.len() {
        let st = state.push(i == cs.len() - 1);
        lemma_line_count_ignores_styles(cs[i], cv1, cv2, st);
        lemma_line_count_ignores_styles_children(cs, cv1, cv2, state, i + 1);
        lemma_count_concat(rendered(cs[i], cv1, st), rendered_children(cs, cv1, state, i + 1), '\n');
        lemma_count_concat(rendered(cs[i], cv2, st), rendered_children(cs, cv2, state, i + 1), '\n');
    }
}


/// Stripping the embedded control sequences from a styled label yields the
/// plain text: a non-plain style's output is exactly the enabling marks,
/// then the text, then the reset sequence, so removing those marks
/// restores the text byte for byte.  With the prefix and line-count laws
/// above, styling only embeds control sequences around labels and never
/// changes what else is printed.
pub proof fn lemma_painted_strips_to_text(st: Style, text: Seq<char>)
    requires
        !st.is_plain(),
    ensures
        st.painted(text).len() == st.start_marks().len() + text.len() + "\u{1b}[0m"@.len(),
        st.painted(text).subrange(
            st.start_marks().len() as int,
            (st.start_marks().len() + text.len()) as int,
        ) == text,
{
    assert(st.painted(text).subrange(
        st.start_marks().len() as int,
        (st.start_marks().len() + text.len()) as int,
    ) =~= text);
}

} // verus!
