//! The traversal and render engine: walks any [`TreeItem`] tree depth-first
//! and writes one line per node to a [`Sink`], with the glyphs, indentation
//! and styles of a [`PrintConfig`].

use crate::item::{Tree, TreeItem};
use crate::print_config::{default_view, node_style, ConfigView, PrintConfig};
use vstd::prelude::*;
use vstd::string::{StringExecFns, StringSliceAdditionalSpecFns};

verus! {

/// The one failure of a render call: the sink refused a write.
#[derive(Clone, Copy, Debug)]
pub struct IoError;

/// A byte-oriented text sink.  A write either appends the whole string to
/// the sink's content or fails and leaves the content as it was; whatever
/// was accepted before a failure remains written.  A sink that reports
/// itself infallible accepts every write and stays infallible, so a render
/// into it is guaranteed to succeed.
pub trait Sink: Sized {
    /// The text this sink has accepted so far.
    spec fn content(&self) -> Seq<char>;

    /// Whether every write to this sink succeeds.
    spec fn infallible(&self) -> bool;

    /// Append `s` to the sink's content, or fail and change nothing.
    fn write_str(&mut self, s: &str) -> (r: Result<(), IoError>)
        ensures
            r is Ok ==> final(self).content() == old(self).content() + s@,
            r is Err ==> final(self).content() == old(self).content(),
            old(self).infallible() ==> r is Ok,
            final(self).infallible() == old(self).infallible(),
    ;
}

/// A sink that accepts everything into an owned string.
pub struct StringSink {
    buf: String,
}

impl StringSink {
    /// An empty sink.
    pub fn new() -> (s: StringSink)
        ensures
            s.content() == Seq::<char>::empty(),
            s.infallible(),
    {
        StringSink { buf: String::new() }
    }

    /// The accepted text, surrendering the sink.
    pub fn into_string(self) -> (r: String)
        ensures
            r@ == self.content(),
    {
        self.buf
    }

    /// The accepted text.
    pub fn as_str(&self) -> (r: &str)
        ensures
            r@ == self.content(),
    {
        self.buf.as_str()
    }
}

impl Sink for StringSink {
    closed spec fn content(&self) -> Seq<char> {
        self.buf@
    }

    /// Every write succeeds.
    closed spec fn infallible(&self) -> bool {
        true
    }

    /// Appends `s`; never fails.
    fn write_str(&mut self, s: &str) -> (r: Result<(), IoError>)
        ensures
            r is Ok,
    {
        self.buf.append(s);
        Ok(())
    }
}

/// A sink with a byte budget: a write whose bytes still fit is accepted
/// whole, and the first write beyond the budget fails, as a full pipe or
/// disk would.
pub struct LimitedSink {
    buf: String,
    used: usize,
    limit: usize,
}

impl LimitedSink {
    /// An empty sink that accepts at most `limit` bytes.
    pub fn new(limit: usize) -> (s: LimitedSink)
        ensures
            s.content() == Seq::<char>::empty(),
            s.budget() == limit as int,
            s.used_bytes() == 0,
            !s.infallible(),
    {
        LimitedSink { buf: String::new(), used: 0, limit }
    }

    /// The byte budget this sink was made with.
    pub closed spec fn budget(&self) -> int {
        self.limit as int
    }

    /// The bytes accepted so far.
    pub closed spec fn used_bytes(&self) -> int {
        self.used as int
    }

    /// The text accepted before any failure, surrendering the sink.
    pub fn into_string(self) -> (r: String)
        ensures
            r@ == self.content(),
    {
        self.buf
    }
}

impl Sink for LimitedSink {
    closed spec fn content(&self) -> Seq<char> {
        self.buf@
    }

    /// A write beyond the budget fails.
    closed spec fn infallible(&self) -> bool {
        false
    }

    /// A write is accepted exactly when its bytes still fit in the budget.
    fn write_str(&mut self, s: &str) -> (r: Result<(), IoError>)
        ensures
            r is Ok <==> old(self).used_bytes() + (s.spec_bytes().len() as usize) <= old(
                self,
            ).budget(),
            final(self).budget() == old(self).budget(),
            r is Ok ==> final(self).used_bytes() == old(self).used_bytes() + (
            s.spec_bytes().len() as usize),
            r is Err ==> final(self).used_bytes() == old(self).used_bytes(),
    {
        if self.used <= self.limit && s.len() <= self.limit - self.used {
            self.buf.append(s);
            self.used = self.used + s.len();
            Ok(())
        } else {
            Err(IoError)
        }
    }
}

/// `n` spaces of padding; none for a non-positive `n`.
pub open spec fn spaces(n: int) -> Seq<char> {
    Seq::new(
        if n <= 0 {
            0
        } else {
            n as nat
        },
        |i: int| ' ',
    )
}

/// One ancestor level of a line's indentation: the continuation glyph of
/// that ancestor, padded with `indent - 1` spaces so that every level is one
/// column unit wide.
pub open spec fn bar_unit(cv: ConfigView, was_last: bool) -> Seq<char> {
    (if was_last {
        cv.vertical_last
    } else {
        cv.vertical
    }) + spaces(cv.indent - 1)
}

/// The ancestor part of a line's indentation: one [`bar_unit`] per ancestor
/// level, outermost first.  `anc[j]` records whether the ancestor at depth
/// `j` was the last child of its own parent.
pub open spec fn bars(cv: ConfigView, anc: Seq<bool>) -> Seq<char>
    decreases anc.len(),
{
    if anc.len() == 0 {
        Seq::empty()
    } else {
        bars(cv, anc.drop_last()) + bar_unit(cv, anc.last())
    }
}

/// The branch glyph of a node's own level, with its padding space: the
/// "last" glyph exactly when the node is the last child of its parent.
/// An indent of zero removes the padding space.
pub open spec fn branch_unit(cv: ConfigView, is_last: bool) -> Seq<char> {
    (if is_last {
        cv.down_and_right_last
    } else {
        cv.down_and_right
    }) + (if cv.indent > 0 {
        " "@
    } else {
        Seq::<char>::empty()
    })
}

/// The whole indentation prefix of one node's line.  `state` holds, for the
/// node and each of its ancestors except the root, whether that node was the
/// last child of its parent, outermost first; its length is the node's
/// depth.  The root's line carries the configured root prefix alone.
pub open spec fn line_prefix(cv: ConfigView, state: Seq<bool>) -> Seq<char> {
    if state.len() == 0 {
        cv.root
    } else {
        bars(cv, state.drop_last()) + branch_unit(cv, state.last())
    }
}

/// The rendering of the tree `t` standing at the position described by
/// `state`: its own line, then the renderings of its children in order.
pub open spec fn rendered(t: Tree, cv: ConfigView, state: Seq<bool>) -> Seq<char>
    decreases t, 0int,
{
    line_prefix(cv, state) + node_style(cv, t.children.len() == 0).painted(t.label) + "\n"@
        + rendered_children(t.children, cv, state, 0)
}

/// The renderings of the children `cs[i..]`, each one level deeper than
/// `state`, the last child marked as such.
pub open spec fn rendered_children(cs: Seq<Tree>, cv: ConfigView, state: Seq<bool>, i: int) -> Seq<
    char,
>
    decreases cs, cs.len() - i,
{
    if 0 <= i < cs.len() {
        rendered(cs[i], cv, state.push(i == cs.len() - 1)) + rendered_children(cs, cv, state, i + 1)
    } else {
        Seq::empty()
    }
}

/// The renderings of the children `cs[..i]`, in order.
pub open spec fn rendered_children_upto(cs: Seq<Tree>, cv: ConfigView, state: Seq<bool>, i: int) -> Seq<
    char,
>
    decreases i,
{
    if i <= 0 {
        Seq::empty()
    } else {
        rendered_children_upto(cs, cv, state, i - 1) + rendered(
            cs[i - 1],
            cv,
            state.push(i - 1 == cs.len() - 1),
        )
    }
}

/// The first `i` children and the rest together render the whole child list.
pub proof fn lemma_children_split(cs: Seq<Tree>, cv: ConfigView, state: Seq<bool>, i: int)
    requires
        0 <= i <= cs.len(),
    ensures
        rendered_children_upto(cs, cv, state, i) + rendered_children(cs, cv, state, i)
            == rendered_children(cs, cv, state, 0),
    decreases i,
{
    if i == 0 {
        assert(rendered_children_upto(cs, cv, state, 0) + rendered_children(cs, cv, state, 0)
            =~= rendered_children(cs, cv, state, 0));
    } else {
        lemma_children_split(cs, cv, state, i - 1);
        assert(rendered_children_upto(cs, cv, state, i) + rendered_children(cs, cv, state, i)
            =~= rendered_children_upto(cs, cv, state, i - 1) + (rendered(
            cs[i - 1],
            cv,
            state.push(i - 1 == cs.len() - 1),
        ) + rendered_children(cs, cv, state, i)));
        assert(rendered(cs[i - 1], cv, state.push(i - 1 == cs.len() - 1)) + rendered_children(
            cs,
            cv,
            state,
            i,
        ) == rendered_children(cs, cv, state, i - 1));
    }
}

/// What a failed render leaves behind: the sink's content grew from
/// `before` to `after` by a prefix of the full rendering `rend` that ends
/// at a line boundary — whole lines were written, in order, and nothing
/// after the failing write.
pub open spec fn aborted_at_line(before: Seq<char>, after: Seq<char>, rend: Seq<char>) -> bool {
    exists|k: int|
        0 <= k <= rend.len() && after == before + rend.subrange(0, k) && (k == 0 || rend[k - 1]
            == '\n')
}

/// Every rendering is nonempty and ends with a line break.
pub proof fn lemma_rendered_ends_newline(t: Tree, cv: ConfigView, state: Seq<bool>)
    ensures
        rendered(t, cv, state).len() > 0,
        rendered(t, cv, state).last() == '\n',
    decreases t, 0int,
{
    reveal_strlit("\n");
    let head = line_prefix(cv, state) + node_style(cv, t.children.len() == 0).painted(t.label)
        + "\n"@;
    let rc = rendered_children(t.children, cv, state, 0);
    assert(rendered(t, cv, state) == head + rc);
    assert(head[head.len() - 1] == "\n"@[0]);
    if t.children.len() == 0 {
        assert(rc =~= Seq::<char>::empty());
        assert(rendered(t, cv, state) =~= head);
    } else {
        lemma_rendered_children_end_newline(t.children, cv, state, 0);
        assert((head + rc)[head.len() + rc.len() - 1] == rc[rc.len() - 1]);
    }
}

/// The rendering of the children from position `i` on is nonempty and ends
/// with a line break.
pub proof fn lemma_rendered_children_end_newline(
    cs: Seq<Tree>,
    cv: ConfigView,
    state: Seq<bool>,
    i: int,
)
    requires
        0 <= i < cs.len(),
    ensures
        rendered_children(cs, cv, state, i).len() > 0,
        rendered_children(cs, cv, state, i).last() == '\n',
    decreases cs, cs.len() - i,
{
    let first = rendered(cs[i], cv, state.push(i == cs.len() - 1));
    let rest = rendered_children(cs, cv, state, i + 1);
    lemma_rendered_ends_newline(cs[i], cv, state.push(i == cs.len() - 1));
    if i == cs.len() - 1 {
        assert(rest =~= Seq::<char>::empty());
        assert(rendered_children(cs, cv, state, i) =~= first);
    } else {
        lemma_rendered_children_end_newline(cs, cv, state, i + 1);
        assert((first + rest)[first.len() + rest.len() - 1] == rest[rest.len() - 1]);
    }
}

/// Append `n` spaces to `out`.
fn append_spaces(out: &mut String, n: usize)
    ensures
        final(out)@ == old(out)@ + spaces(n as int),
{
    let mut j: usize = 0;
    while j < n
        invariant
            j <= n,
            out@ == old(out)@ + spaces(j as int),
        decreases n - j,
    {
        out.append(" ");
        proof {
            reveal_strlit(" ");
            assert(old(out)@ + spaces(j as int) + " "@ =~= old(out)@ + spaces(j + 1 as int));
        }
        j += 1;
    }
}

/// Build the indentation prefix of the line of the node whose position
/// `state` describes.
fn build_prefix(config: &PrintConfig, state: &Vec<bool>) -> (r: String)
    ensures
        r@ == line_prefix(config@, state@),
{
    let mut r = String::new();
    let n = state.len();
    if n == 0 {
        r.append(config.chars.root.as_str());
        proof {
            assert(r@ =~= line_prefix(config@, state@));
        }
        return r;
    }
    let mut j: usize = 0;
    while j < n - 1
        invariant
            j <= n - 1,
            n == state@.len(),
            r@ == bars(config@, state@.subrange(0, j as int)),
        decreases n - 1 - j,
    {
        if state[j] {
            r.append(config.chars.vertical_last.as_str());
        } else {
            r.append(config.chars.vertical.as_str());
        }
        if config.indent > 0 {
            append_spaces(&mut r, config.indent - 1);
        }
        proof {
            let pre = state@.subrange(0, j as int);
            let cur = state@.subrange(0, j + 1 as int);
            assert(cur.drop_last() =~= pre);
            assert(cur.last() == state@[j as int]);
            assert(r@ =~= bars(config@, pre) + bar_unit(config@, state@[j as int]));
        }
        j += 1;
    }
    if state[n - 1] {
        r.append(config.chars.down_and_right_last.as_str());
    } else {
        r.append(config.chars.down_and_right.as_str());
    }
    if config.indent > 0 {
        r.append(" ");
    }
    proof {
        assert(state@.subrange(0, n - 1 as int) =~= state@.drop_last());
        assert(r@ =~= line_prefix(config@, state@));
    }
    r
}

/// Render the node that `item` describes, at the position that `state`
/// describes, and all its descendants, writing one line per node to `f`.
///
/// On success the sink has accepted exactly the rendering of the node's
/// subtree; an infallible sink always succeeds.  On failure the traversal
/// stopped at the failing write: the sink has accepted the whole earlier
/// lines, a line-boundary prefix of that rendering, and nothing further.
fn write_item<T: TreeItem, S: Sink>(
    item: &T,
    f: &mut S,
    config: &PrintConfig,
    state: &mut Vec<bool>,
) -> (r: Result<(), IoError>)
    ensures
        final(state)@ == old(state)@,
        final(f).infallible() == old(f).infallible(),
        old(f).infallible() ==> r is Ok,
        r is Ok ==> final(f).content() == old(f).content() + rendered(
            item.tree(),
            config@,
            old(state)@,
        ),
        r is Err ==> aborted_at_line(
            old(f).content(),
            final(f).content(),
            rendered(item.tree(), config@, old(state)@),
        ),
    decreases item.tree(),
{
    let ghost t = item.tree();
    let ghost cv = config@;
    let ghost st0 = state@;
    let ghost rend = rendered(t, cv, st0);
    let mut line = build_prefix(config, state);
    let children = item.children();
    let style = config.style_for(children.len() == 0);
    let label = item.write_self(&style);
    line.append(label.as_str());
    line.append("\n");
    let ghost head = line@;
    proof {
        assert(head == line_prefix(cv, st0) + node_style(cv, t.children.len() == 0).painted(
            t.label,
        ) + "\n"@);
        assert(rend =~= head + rendered_children(t.children, cv, st0, 0));
    }
    match f.write_str(line.as_str()) {
        Ok(()) => (),
        Err(e) => {
            proof {
                assert(rend.subrange(0, 0) =~= Seq::<char>::empty());
                assert(old(f).content() + rend.subrange(0, 0) =~= old(f).content());
                assert(aborted_at_line(old(f).content(), f.content(), rend));
            }
            return Err(e);
        },
    }
    let ghost base = f.content();
    let n = children.len();
    let mut i: usize = 0;
    while i < n
        invariant
            i <= n,
            n == children@.len(),
            state@ == st0,
            old(state)@ == st0,
            t == item.tree(),
            cv == config@,
            base == old(f).content() + head,
            head == line@,
            head == line_prefix(cv, st0) + node_style(cv, t.children.len() == 0).painted(t.label)
                + "\n"@,
            f.infallible() == old(f).infallible(),
            rend == rendered(t, cv, st0),
            rend == head + rendered_children(t.children, cv, st0, 0),
            n == t.children.len(),
            forall|j: int|
                0 <= j < n ==> (#[trigger] children@[j].tree()) == t.children[j],
            f.content() == base + rendered_children_upto(t.children, cv, st0, i as int),
        decreases n - i,
    {
        let ghost content0 = f.content();
        state.push(i == n - 1);
        let ghost child_rend = rendered(t.children[i as int], cv, st0.push(i == n - 1));
        proof {
            assert(children@[i as int].tree() == t.children[i as int]);
            assert(decreases_to!(t => t.children));
            assert(decreases_to!(t.children => t.children[i as int]));
        }
        let res = write_item(&children[i], f, config, state);
        state.pop();
        proof {
            assert(state@ =~= st0);
        }
        match res {
            Ok(()) => (),
            Err(e) => {
                proof {
                    reveal_strlit("\n");
                    let k0 = choose|k0: int|
                        0 <= k0 <= child_rend.len() && f.content() == content0
                            + child_rend.subrange(0, k0) && (k0 == 0 || child_rend[k0 - 1]
                            == '\n');
                    lemma_children_split(t.children, cv, st0, i as int);
                    let upto = rendered_children_upto(t.children, cv, st0, i as int);
                    let h = head + upto;
                    let k = h.len() + k0;
                    assert(child_rend + rendered_children(t.children, cv, st0, i + 1)
                        == rendered_children(t.children, cv, st0, i as int));
                    assert(0 <= k <= rend.len());
                    assert(f.content() =~= old(f).content() + rend.subrange(0, k));
                    assert(rend =~= h + (child_rend + rendered_children(
                        t.children,
                        cv,
                        st0,
                        i + 1,
                    )));
                    if k0 == 0 {
                        if i == 0 {
                            assert(upto =~= Seq::<char>::empty());
                            assert(h =~= head);
                            assert(head[head.len() - 1] == "\n"@[0]);
                        } else {
                            lemma_rendered_ends_newline(
                                t.children[i - 1],
                                cv,
                                st0.push(i - 1 == t.children.len() - 1),
                            );
                            assert(h[h.len() - 1] == upto[upto.len() - 1]);
                        }
                        assert(rend[k - 1] == h[h.len() - 1]);
                    } else {
                        assert(rend[k - 1] == child_rend[k0 - 1]);
                    }
                    assert(aborted_at_line(old(f).content(), f.content(), rend));
                }
                return Err(e);
            },
        }
        proof {
            assert(rendered_children_upto(t.children, cv, st0, i + 1) =~= rendered_children_upto(
                t.children,
                cv,
                st0,
                i as int,
            ) + child_rend);
            assert(f.content() =~= base + rendered_children_upto(t.children, cv, st0, i + 1));
        }
        i += 1;
    }
    proof {
        lemma_children_split(t.children, cv, st0, n as int);
        assert(rendered_children(t.children, cv, st0, n as int) =~= Seq::<char>::empty());
        assert(rendered_children_upto(t.children, cv, st0, n as int) + Seq::<char>::empty()
            =~= rendered_children_upto(t.children, cv, st0, n as int));
        assert(f.content() =~= old(f).content() + rend);
    }
    Ok(())
}

/// Render the tree rooted at `item` to the sink `f` with the given
/// configuration: one line per node, depth-first, the root line first.
/// Recursion depth equals tree depth, so a pathologically deep tree can
/// exhaust the call stack; that limitation is accepted, not guarded.
///
/// On success the sink has accepted exactly `rendered(item.tree(), config@,
/// Seq::empty())`, and a sink that never fails guarantees success: failure
/// comes only from the sink.  On failure the render stopped at the failing
/// write; the sink keeps the whole lines it had accepted before, a
/// line-boundary prefix of that rendering, and no further line was written.
pub fn write_tree_with<T: TreeItem, S: Sink>(item: &T, f: &mut S, config: &PrintConfig) -> (r:
    Result<(), IoError>)
    ensures
        final(f).infallible() == old(f).infallible(),
        old(f).infallible() ==> r is Ok,
        r is Ok ==> final(f).content() == old(f).content() + rendered(
            item.tree(),
            config@,
            Seq::empty(),
        ),
        r is Err ==> aborted_at_line(
            old(f).content(),
            final(f).content(),
            rendered(item.tree(), config@, Seq::empty()),
        ),
{
    let mut state: Vec<bool> = Vec::new();
    write_item(item, f, config, &mut state)
}

/// Render the tree rooted at `item` to the sink `f` with the default
/// configuration.
pub fn write_tree<T: TreeItem, S: Sink>(item: &T, f: &mut S) -> (r: Result<(), IoError>)
    ensures
        final(f).infallible() == old(f).infallible(),
        old(f).infallible() ==> r is Ok,
        r is Ok ==> final(f).content() == old(f).content() + rendered(
            item.tree(),
            default_view(),
            Seq::empty(),
        ),
        r is Err ==> aborted_at_line(
            old(f).content(),
            final(f).content(),
            rendered(item.tree(), default_view(), Seq::empty()),
        ),
{
    let config = PrintConfig::default();
    write_tree_with(item, f, &config)
}

/// Render the tree rooted at `item` with the given configuration into a
/// fresh string: the total form of the engine, for callers without a sink
/// of their own.  It always succeeds, and returns exactly the rendering.
pub fn render_to_string<T: TreeItem>(item: &T, config: &PrintConfig) -> (r: String)
    ensures
        r@ == rendered(item.tree(), config@, Seq::empty()),
{
    let mut sink = StringSink::new();
    let res = write_tree_with(item, &mut sink, config);
    match res {
        Ok(()) => {
            proof {
                assert(sink.content() =~= rendered(item.tree(), config@, Seq::empty()));
            }
            sink.into_string()
        },
        Err(_) => {
            proof {
                assert(false);
            }
            String::new()
        },
    }
}



} // verus!
