//! The mathematical model of a tree of spaces.
//!
//! A space is modelled by a [`SpaceView`]: its name, the sequence of its
//! items, the sequence of its child spaces and its root flag. A node of a
//! tree is addressed by a path, the sequence of child indices that leads to
//! it from the top. Every search of the library is one pre-order walk,
//! [`SpaceView::first_path`], taken with a different test on the nodes.

use vstd::prelude::*;

verus! {

/// What an item is: a name and a description.
pub struct ItemView {
    pub name: Seq<char>,
    pub description: Seq<char>,
}

/// What a space is: a name, its items in order, its child spaces in order,
/// and the root flag.
pub struct SpaceView {
    pub name: Seq<char>,
    pub items: Seq<ItemView>,
    pub spaces: Seq<SpaceView>,
    pub root: bool,
}

/// `i` is the least index of `s` whose element satisfies `pred`.
pub open spec fn is_first_index<T>(s: Seq<T>, pred: spec_fn(T) -> bool, i: int) -> bool {
    &&& 0 <= i < s.len()
    &&& pred(s[i])
    &&& forall|j: int| 0 <= j < i ==> !pred(#[trigger] s[j])
}

/// The least index of `s` whose element satisfies `pred`, if there is one.
pub open spec fn first_index<T>(s: Seq<T>, pred: spec_fn(T) -> bool) -> Option<int> {
    if exists|i: int| is_first_index(s, pred, i) {
        Some(choose|i: int| is_first_index(s, pred, i))
    } else {
        None
    }
}

/// Whether one of `items` is called `name`.
pub open spec fn named_in(items: Seq<ItemView>, name: Seq<char>) -> bool {
    exists|i: int| 0 <= i < items.len() && (#[trigger] items[i]).name == name
}

/// The test "this item is called `name`".
pub open spec fn item_named(name: Seq<char>) -> spec_fn(ItemView) -> bool {
    |i: ItemView| i.name == name
}

/// The test "this space is called `name`".
pub open spec fn space_named(name: Seq<char>) -> spec_fn(SpaceView) -> bool {
    |s: SpaceView| s.name == name
}

/// The test "this space holds, in its own list, an item called `name`".
pub open spec fn holds_item(name: Seq<char>) -> spec_fn(SpaceView) -> bool {
    |s: SpaceView| first_index(s.items, item_named(name)) is Some
}

/// The test "this space has a direct child called `name`".
pub open spec fn holds_space(name: Seq<char>) -> spec_fn(SpaceView) -> bool {
    |s: SpaceView| first_index(s.spaces, space_named(name)) is Some
}

/// `p` comes no later than `q` in pre-order: `p` is a prefix of `q`, or at
/// the first place where they differ `p` takes the earlier child.
pub open spec fn preorder_le(p: Seq<int>, q: Seq<int>) -> bool
    decreases p.len(),
{
    p.len() == 0 || (q.len() > 0 && (p[0] < q[0] || (p[0] == q[0] && preorder_le(
        p.drop_first(),
        q.drop_first(),
    ))))
}

impl SpaceView {
    /// `p` leads to a node of this tree.
    pub open spec fn has_path(self, p: Seq<int>) -> bool
        decreases p.len(),
    {
        p.len() == 0 || (0 <= p[0] < self.spaces.len() && self.spaces[p[0]].has_path(
            p.drop_first(),
        ))
    }

    /// The node that `p` leads to.
    pub open spec fn at(self, p: Seq<int>) -> SpaceView
        recommends
            self.has_path(p),
        decreases p.len(),
    {
        if p.len() == 0 {
            self
        } else {
            self.spaces[p[0]].at(p.drop_first())
        }
    }

    /// This tree with the node at `p` replaced by `sub`.
    pub open spec fn put(self, p: Seq<int>, sub: SpaceView) -> SpaceView
        recommends
            self.has_path(p),
        decreases p.len(),
    {
        if p.len() == 0 {
            sub
        } else {
            SpaceView {
                spaces: self.spaces.update(p[0], self.spaces[p[0]].put(p.drop_first(), sub)),
                ..self
            }
        }
    }

    /// The path of the first node, in depth-first pre-order, that satisfies
    /// `pred`: the node itself is tested first, then each child's whole
    /// subtree in the order of the children.
    pub open spec fn first_path(self, pred: spec_fn(SpaceView) -> bool) -> Option<Seq<int>>
        decreases self, 0nat,
    {
        if pred(self) {
            Some(Seq::empty())
        } else {
            Self::first_path_from(self.spaces, pred, 0)
        }
    }

    /// The pre-order search of [`Self::first_path`] over the children
    /// `spaces[from..]`, each path starting with its child's index.
    pub open spec fn first_path_from(
        spaces: Seq<SpaceView>,
        pred: spec_fn(SpaceView) -> bool,
        from: int,
    ) -> Option<Seq<int>>
        decreases spaces, spaces.len() - from,
    {
        if 0 <= from < spaces.len() {
            match spaces[from].first_path(pred) {
                Some(p) => Some(seq![from] + p),
                None => Self::first_path_from(spaces, pred, from + 1),
            }
        } else {
            None
        }
    }

    /// The first space called `name`, in depth-first pre-order.
    pub open spec fn find(self, name: Seq<char>) -> Option<SpaceView> {
        match self.first_path(space_named(name)) {
            Some(p) => Some(self.at(p)),
            None => None,
        }
    }

    /// This space without the first of its own items called `name`, and that
    /// item.
    pub open spec fn take_item(self, name: Seq<char>) -> (SpaceView, Option<ItemView>) {
        match first_index(self.items, item_named(name)) {
            Some(i) => (SpaceView { items: self.items.remove(i), ..self }, Some(self.items[i])),
            None => (self, None),
        }
    }

    /// This space without the first of its direct children called `name`,
    /// and that child.
    pub open spec fn take_space(self, name: Seq<char>) -> (SpaceView, Option<SpaceView>) {
        match first_index(self.spaces, space_named(name)) {
            Some(i) => (SpaceView { spaces: self.spaces.remove(i), ..self }, Some(self.spaces[i])),
            None => (self, None),
        }
    }

    /// Removal of an item anywhere in the tree: the first space in pre-order
    /// that holds an item called `name` loses the first such item.
    pub open spec fn remove_item(self, name: Seq<char>) -> (SpaceView, Option<ItemView>) {
        match self.first_path(holds_item(name)) {
            Some(p) => (self.put(p, self.at(p).take_item(name).0), self.at(p).take_item(name).1),
            None => (self, None),
        }
    }

    /// Removal of a space anywhere below the top: the first space in
    /// pre-order that has a direct child called `name` loses the first such
    /// child. The top of the tree is never removed.
    pub open spec fn remove_space(self, name: Seq<char>) -> (SpaceView, Option<SpaceView>) {
        match self.first_path(holds_space(name)) {
            Some(p) => (self.put(p, self.at(p).take_space(name).0), self.at(p).take_space(name).1),
            None => (self, None),
        }
    }

    /// Removal of one item for each of `names`, in their order, each by
    /// [`Self::remove_item`] on what the removals before it left: the tree
    /// that is left, and the items that came out, in the order of their
    /// names. A name that finds no item takes nothing out.
    pub open spec fn remove_items(self, names: Seq<Seq<char>>) -> (SpaceView, Seq<ItemView>)
        decreases names.len(),
    {
        if names.len() == 0 {
            (self, Seq::empty())
        } else {
            let (t, got) = self.remove_items(names.drop_last());
            match t.remove_item(names.last()) {
                (rest, Some(i)) => (rest, got.push(i)),
                (rest, None) => (rest, got),
            }
        }
    }

    /// Every item of the tree in depth-first pre-order: the space's own
    /// items, then those of each child's subtree.
    pub open spec fn all_items(self) -> Seq<ItemView>
        decreases self, 0nat,
    {
        self.items + Self::all_items_of(self.spaces, self.spaces.len() as int)
    }

    /// The items of the subtrees of the first `n` of `spaces`.
    pub open spec fn all_items_of(spaces: Seq<SpaceView>, n: int) -> Seq<ItemView>
        decreases spaces, n,
    {
        if 0 < n <= spaces.len() {
            Self::all_items_of(spaces, n - 1) + spaces[n - 1].all_items()
        } else {
            Seq::empty()
        }
    }

    /// Whether an item called `name` is anywhere in the tree.
    pub open spec fn has_item(self, name: Seq<char>) -> bool {
        named_in(self.all_items(), name)
    }

    /// How many items the tree holds.
    pub open spec fn count_items(self) -> nat {
        self.all_items().len()
    }

    /// This space after the direct child called `name` is deleted and every
    /// item of that child's subtree is appended to the space's own items;
    /// `None` where there is no such child.
    pub open spec fn merge_child(self, name: Seq<char>) -> Option<SpaceView> {
        match self.take_space(name) {
            (rest, Some(child)) => Some(
                SpaceView { items: rest.items + child.all_items(), ..rest },
            ),
            (_, None) => None,
        }
    }

    /// The tree with every item taken out: what is left is the names, the
    /// nesting and the root flags.
    pub open spec fn skeleton(self) -> SpaceView
        decreases self, 0nat,
    {
        SpaceView {
            items: Seq::empty(),
            spaces: Self::skeletons(self.spaces, self.spaces.len() as int),
            ..self
        }
    }

    /// The skeletons of the first `n` of `spaces`.
    pub open spec fn skeletons(spaces: Seq<SpaceView>, n: int) -> Seq<SpaceView>
        decreases spaces, n,
    {
        if 0 < n <= spaces.len() {
            Self::skeletons(spaces, n - 1).push(spaces[n - 1].skeleton())
        } else {
            Seq::empty()
        }
    }
}

} // verus!
