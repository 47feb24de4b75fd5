//! The tree abstraction: the contract any node type must satisfy to be
//! rendered, its mathematical model, and a ready-made node type.

use crate::style::Style;
use vstd::prelude::*;

verus! {

/// The mathematical model of a tree node: its label and, in display order,
/// the models of its children.  A leaf has an empty child sequence.
pub ghost struct Tree {
    /// The node's own text, before any styling.
    pub label: Seq<char>,
    /// The node's direct children, in display order.
    pub children: Seq<Tree>,
}

/// The contract a type must satisfy for its values to be rendered as trees.
///
/// A node produces its own styled label and its ordered list of direct
/// children; both are pinned to the node's model [`TreeItem::tree`].
///
/// `children` must be repeatable: the model is fixed per node, so every call
/// describes the same child list.  The engine does not guard against cycles;
/// a conforming type's model is a finite tree, and an adapter over a cyclic
/// structure must itself walk only a finite reachable view.
pub trait TreeItem: Clone + Sized {
    /// The node's model: its label and the models of its children.
    spec fn tree(&self) -> Tree;

    /// The node's own label, painted with the supplied style.
    fn write_self(&self, style: &Style) -> (r: String)
        ensures
            r@ == style.painted(self.tree().label),
    ;

    /// The node's direct children, in display order; empty for a leaf.
    fn children(&self) -> (v: Vec<Self>)
        ensures
            v@.len() == self.tree().children.len(),
            forall|i: int|
                0 <= i < v@.len() ==> (#[trigger] v@[i].tree()) == self.tree().children[i],
    ;
}

/// A ready-made implementation of [`TreeItem`]: an owned text label and an
/// owned list of children of the same type.
#[derive(Debug)]
pub struct StringItem {
    /// The item's own text.
    pub text: String,
    /// The item's children, in display order.
    pub children: Vec<StringItem>,
}

/// The model of a [`StringItem`]: its text and, recursively, the models of
/// its children.
pub open spec fn item_tree(item: StringItem) -> Tree
    decreases item, 1int,
{
    Tree { label: item.text@, children: items_trees(item.children@) }
}

/// The models of a sequence of [`StringItem`]s, in order.
pub open spec fn items_trees(items: Seq<StringItem>) -> Seq<Tree>
    decreases items, 0int,
{
    if items.len() == 0 {
        Seq::empty()
    } else {
        seq![item_tree(items[0])] + items_trees(items.drop_first())
    }
}

/// Each element of `items_trees` is the model of the matching item.
pub proof fn lemma_items_trees(items: Seq<StringItem>)
    ensures
        items_trees(items).len() == items.len(),
        forall|i: int|
            0 <= i < items.len() ==> (#[trigger] items_trees(items)[i]) == item_tree(items[i]),
    decreases items.len(),
{
    if items.len() > 0 {
        lemma_items_trees(items.drop_first());
        assert forall|i: int| 0 <= i < items.len() implies (#[trigger] items_trees(items)[i])
            == item_tree(items[i]) by {
            if i > 0 {
                assert(items_trees(items)[i] == items_trees(items.drop_first())[i - 1]);
                assert(items.drop_first()[i - 1] == items[i]);
            }
        }
    }
}

/// A deep copy of an item, with the same model.
pub fn clone_item(it: &StringItem) -> (res: StringItem)
    ensures
        item_tree(res) == item_tree(*it),
    decreases *it,
{
    let n = it.children.len();
    let mut children: Vec<StringItem> = Vec::new();
    let mut i: usize = 0;
    while i < n
        invariant
            i <= n,
            n == it.children@.len(),
            children@.len() == i,
            forall|j: int|
                0 <= j < i ==> item_tree(#[trigger] children@[j]) == item_tree(it.children@[j]),
        decreases n - i,
    {
        proof {
            assert(decreases_to!(*it => it.children));
            assert(decreases_to!(it.children@ => it.children@[i as int]));
        }
        let c = clone_item(&it.children[i]);
        children.push(c);
        i += 1;
    }
    let res = StringItem { text: it.text.clone(), children };
    proof {
        lemma_items_trees(it.children@);
        lemma_items_trees(res.children@);
        assert(items_trees(res.children@) =~= items_trees(it.children@));
    }
    res
}

impl Clone for StringItem {
    /// A deep copy: the clone has the same model as the original.
    fn clone(&self) -> (res: StringItem)
        ensures
            item_tree(res) == item_tree(*self),
    {
        clone_item(self)
    }
}

impl TreeItem for StringItem {
    /// The model of this item.
    open spec fn tree(&self) -> Tree {
        item_tree(*self)
    }

    /// Paints this item's text with the supplied style.
    fn write_self(&self, style: &Style) -> (r: String) {
        style.paint(self.text.as_str())
    }

    /// A copy of this item's child list.
    fn children(&self) -> (v: Vec<StringItem>) {
        let v = clone_item(self).children;
        proof {
            lemma_items_trees(v@);
        }
        v
    }
}

} // verus!
