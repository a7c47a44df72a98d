//! Spaces: tree nodes that own items and child spaces.

use crate::error::NotFound;
use crate::item::{item_views, Item};
use crate::lemmas::{lemma_first_index_absent, lemma_first_index_found};
use crate::model::{first_index, item_named, space_named, SpaceView};
use crate::text::same_text;
use vstd::prelude::*;
use vstd::std_specs::cmp::PartialEqSpecImpl;

verus! {

/// A tree node: a name, items in insertion order, child spaces in insertion
/// order, and a root flag that nothing enforces.
#[derive(Debug)]
pub struct Space {
    pub(crate) name: String,
    pub(crate) items: Vec<Item>,
    pub(crate) spaces: Vec<Space>,
    pub(crate) root: bool,
}

/// The views of a sequence of spaces, built from the front.
spec fn views_rec(s: Seq<Space>) -> Seq<SpaceView>
    decreases s,
{
    if s.len() == 0 {
        Seq::empty()
    } else {
        views_rec(s.drop_last()).push(s.last()@)
    }
}

impl View for Space {
    type V = SpaceView;

    closed spec fn view(&self) -> SpaceView
        decreases self,
    {
        SpaceView {
            name: self.name@,
            items: item_views(self.items@),
            spaces: views_rec(self.spaces@),
            root: self.root,
        }
    }
}

/// The views of a sequence of spaces, in order.
pub open spec fn space_views(s: Seq<Space>) -> Seq<SpaceView> {
    s.map_values(|x: Space| x@)
}

/// Built from the front or taken one by one, the views are the same.
proof fn lemma_views_rec(s: Seq<Space>)
    ensures
        views_rec(s) == space_views(s),
    decreases s.len(),
{
    reveal_with_fuel(views_rec, 2);
    if s.len() > 0 {
        lemma_views_rec(s.drop_last());
        assert forall|i: int| 0 <= i < s.len() implies views_rec(s)[i] == s[i]@ by {
            if i < s.len() - 1 {
                assert(s.drop_last()[i] == s[i]);
                assert(space_views(s.drop_last())[i] == s.drop_last()[i]@);
            }
        }
    }
    assert(views_rec(s) =~= space_views(s));
}

impl PartialEq for Space {
    fn eq(&self, other: &Self) -> (res: bool)
        decreases self,
    {
        proof {
            self.lemma_view();
            other.lemma_view();
        }
        if !same_text(self.name.as_str(), other.name.as_str()) || self.root != other.root
            || self.items.len() != other.items.len() || self.spaces.len() != other.spaces.len() {
            assert(self@.items.len() == self.items.len());
            assert(other@.items.len() == other.items.len());
            assert(self@.spaces.len() == self.spaces.len());
            assert(other@.spaces.len() == other.spaces.len());
            return false;
        }
        let mut k: usize = 0;
        while k < self.items.len()
            invariant
                k <= self.items.len(),
                self.items.len() == other.items.len(),
                self@.items == item_views(self.items@),
                other@.items == item_views(other.items@),
                forall|j: int| 0 <= j < k ==> self@.items[j] == other@.items[j],
            decreases self.items.len() - k,
        {
            if !(self.items[k] == other.items[k]) {
                assert(self@.items[k as int] != other@.items[k as int]);
                return false;
            }
            k += 1;
        }
        let mut i: usize = 0;
        while i < self.spaces.len()
            invariant
                i <= self.spaces.len(),
                self.spaces.len() == other.spaces.len(),
                self@.spaces == space_views(self.spaces@),
                other@.spaces == space_views(other.spaces@),
                forall|j: int| 0 <= j < i ==> self@.spaces[j] == other@.spaces[j],
            decreases self.spaces.len() - i,
        {
            if !self.spaces[i].eq(&other.spaces[i]) {
                assert(self@.spaces[i as int] != other@.spaces[i as int]);
                return false;
            }
            i += 1;
        }
        assert(self@.items =~= other@.items);
        assert(self@.spaces =~= other@.spaces);
        true
    }
}

impl PartialEqSpecImpl for Space {
    open spec fn obeys_eq_spec() -> bool {
        true
    }

    open spec fn eq_spec(&self, other: &Self) -> bool {
        self@ == other@
    }
}

impl Eq for Space {

}

impl Clone for Space {
    fn clone(&self) -> (res: Self)
        ensures
            res@ == self@,
        decreases self,
    {
        let mut items: Vec<Item> = Vec::new();
        let mut i: usize = 0;
        while i < self.items.len()
            invariant
                i <= self.items.len(),
                items.len() == i,
                forall|k: int| 0 <= k < i ==> items@[k]@ == self.items@[k]@,
            decreases self.items.len() - i,
        {
            items.push(self.items[i].clone());
            i += 1;
        }
        let mut spaces: Vec<Space> = Vec::new();
        let mut j: usize = 0;
        while j < self.spaces.len()
            invariant
                j <= self.spaces.len(),
                spaces.len() == j,
                forall|k: int| 0 <= k < j ==> spaces@[k]@ == self.spaces@[k]@,
            decreases self.spaces.len() - j,
        {
            spaces.push(self.spaces[j].clone());
            j += 1;
        }
        let res = Space { name: self.name.clone(), items, spaces, root: self.root };
        proof {
            res.lemma_view();
            self.lemma_view();
            assert(res@.items =~= self@.items);
            assert(res@.spaces =~= self@.spaces);
        }
        res
    }
}

/// Accumulates the fields of a [`Space`]. Nothing is validated.
pub struct SpaceBuilder {
    name: String,
    items: Vec<Item>,
    spaces: Vec<Space>,
    root: bool,
}

impl View for SpaceBuilder {
    type V = SpaceView;

    closed spec fn view(&self) -> SpaceView {
        SpaceView {
            name: self.name@,
            items: item_views(self.items@),
            spaces: space_views(self.spaces@),
            root: self.root,
        }
    }
}

/// The space that has no name, no item, no child, and is not a root.
pub open spec fn empty_space() -> SpaceView {
    SpaceView { name: Seq::empty(), items: Seq::empty(), spaces: Seq::empty(), root: false }
}

impl Default for SpaceBuilder {
    fn default() -> (res: Self)
        ensures
            res@ == empty_space(),
    {
        SpaceBuilder::new()
    }
}

impl SpaceBuilder {
    /// A builder with an empty name, no item, no child and the root flag
    /// off.
    pub fn new() -> (res: Self)
        ensures
            res@ == empty_space(),
    {
        let res = SpaceBuilder {
            name: String::new(),
            items: Vec::new(),
            spaces: Vec::new(),
            root: false,
        };
        assert(res@.items =~= Seq::empty());
        assert(res@.spaces =~= Seq::empty());
        res
    }

    /// Sets the name.
    pub fn name(self, name: &str) -> (res: Self)
        ensures
            res@ == (SpaceView { name: name@, ..self@ }),
    {
        SpaceBuilder { name: name.to_owned(), items: self.items, spaces: self.spaces, root: self.root }
    }

    /// Sets the root flag.
    pub fn root(self, is_root: bool) -> (res: Self)
        ensures
            res@ == (SpaceView { root: is_root, ..self@ }),
    {
        SpaceBuilder { name: self.name, items: self.items, spaces: self.spaces, root: is_root }
    }

    /// Replaces the items.
    pub fn items(self, items: Vec<Item>) -> (res: Self)
        ensures
            res@ == (SpaceView { items: item_views(items@), ..self@ }),
    {
        SpaceBuilder { name: self.name, items, spaces: self.spaces, root: self.root }
    }

    /// Replaces the child spaces.
    pub fn spaces(self, spaces: Vec<Space>) -> (res: Self)
        ensures
            res@ == (SpaceView { spaces: space_views(spaces@), ..self@ }),
    {
        SpaceBuilder { name: self.name, items: self.items, spaces, root: self.root }
    }

    /// Appends an item.
    pub fn push_item(self, item: Item) -> (res: Self)
        ensures
            res@ == (SpaceView { items: self@.items.push(item@), ..self@ }),
    {
        let mut items = self.items;
        items.push(item);
        let res = SpaceBuilder { name: self.name, items, spaces: self.spaces, root: self.root };
        assert(res@.items =~= self@.items.push(item@));
        res
    }

    /// Appends a child space.
    pub fn push_space(self, space: Space) -> (res: Self)
        ensures
            res@ == (SpaceView { spaces: self@.spaces.push(space@), ..self@ }),
    {
        let mut spaces = self.spaces;
        spaces.push(space);
        let res = SpaceBuilder { name: self.name, items: self.items, spaces, root: self.root };
        assert(res@.spaces =~= self@.spaces.push(space@));
        res
    }

    /// The space with the fields accumulated so far.
    pub fn build(self) -> (res: Space)
        ensures
            res@ == self@,
    {
        let res = Space { name: self.name, items: self.items, spaces: self.spaces, root: self.root };
        proof {
            res.lemma_view();
        }
        res
    }
}

impl Space {
    /// The view of a space is made of the views of its four fields.
    pub(crate) proof fn lemma_view(&self)
        ensures
            self@.name == self.name@,
            self@.items == item_views(self.items@),
            self@.spaces == space_views(self.spaces@),
            self@.root == self.root,
    {
        lemma_views_rec(self.spaces@);
    }

    /// Starts an empty builder.
    pub fn builder() -> (res: SpaceBuilder)
        ensures
            res@ == empty_space(),
    {
        SpaceBuilder::new()
    }

    /// The space's name.
    pub fn name(&self) -> (res: &str)
        ensures
            res@ == self@.name,
    {
        self.name.as_str()
    }

    /// The space's own items, in order.
    pub fn items(&self) -> (res: &[Item])
        ensures
            item_views(res@) == self@.items,
    {
        self.items.as_slice()
    }

    /// The space's direct children, in order.
    pub fn spaces(&self) -> (res: &[Space])
        ensures
            space_views(res@) == self@.spaces,
    {
        proof {
            self.lemma_view();
        }
        self.spaces.as_slice()
    }

    /// The root flag.
    pub fn root(&self) -> (res: bool)
        ensures
            res == self@.root,
    {
        self.root
    }

    /// Replaces the name.
    pub fn set_name(&mut self, name: &str)
        ensures
            final(self)@ == (SpaceView { name: name@, ..old(self)@ }),
    {
        self.name = name.to_owned();
    }

    /// Sets the root flag.
    pub fn set_root(&mut self, root: bool)
        ensures
            final(self)@ == (SpaceView { root, ..old(self)@ }),
    {
        self.root = root;
    }

    /// Appends an item to the space's own items.
    pub fn add_item(&mut self, item: Item)
        ensures
            final(self)@ == (SpaceView { items: old(self)@.items.push(item@), ..old(self)@ }),
    {
        self.items.push(item);
        assert(self@.items =~= old(self)@.items.push(item@));
    }

    /// Appends items to the space's own items, in their order.
    pub fn add_items(&mut self, items: Vec<Item>)
        ensures
            final(self)@ == (SpaceView {
                items: old(self)@.items + item_views(items@),
                ..old(self)@
            }),
    {
        let mut rest = items;
        self.items.append(&mut rest);
        assert(self@.items =~= old(self)@.items + item_views(items@));
    }

    /// Appends a child space.
    pub fn add_space(&mut self, space: Space)
        ensures
            final(self)@ == (SpaceView { spaces: old(self)@.spaces.push(space@), ..old(self)@ }),
    {
        self.spaces.push(space);
        proof {
            self.lemma_view();
            old(self).lemma_view();
            assert(self@.spaces =~= old(self)@.spaces.push(space@));
        }
    }

    /// The index of the first of the space's own items called `name`.
    pub(crate) fn item_position(&self, name: &str) -> (res: Option<usize>)
        ensures
            match first_index(self@.items, item_named(name@)) {
                Some(i) => res == Some(i as usize) && i < self.items.len(),
                None => res is None,
            },
    {
        let mut k: usize = 0;
        while k < self.items.len()
            invariant
                k <= self.items.len(),
                self@.items == item_views(self.items@),
                forall|j: int| 0 <= j < k ==> !item_named(name@)(#[trigger] self@.items[j]),
            decreases self.items.len() - k,
        {
            proof {
                self.items[k as int].lemma_view();
            }
            if same_text(self.items[k].name.as_str(), name) {
                proof {
                    lemma_first_index_found(self@.items, item_named(name@), k as int);
                }
                return Some(k);
            }
            k += 1;
        }
        proof {
            lemma_first_index_absent(self@.items, item_named(name@));
        }
        None
    }

    /// The index of the first of the space's direct children called `name`.
    pub(crate) fn space_position(&self, name: &str) -> (res: Option<usize>)
        ensures
            match first_index(self@.spaces, space_named(name@)) {
                Some(i) => res == Some(i as usize) && i < self.spaces.len(),
                None => res is None,
            },
    {
        proof {
            self.lemma_view();
        }
        let mut k: usize = 0;
        while k < self.spaces.len()
            invariant
                k <= self.spaces.len(),
                self@.spaces == space_views(self.spaces@),
                forall|j: int| 0 <= j < k ==> !space_named(name@)(#[trigger] self@.spaces[j]),
            decreases self.spaces.len() - k,
        {
            proof {
                self.spaces[k as int].lemma_view();
            }
            if same_text(self.spaces[k].name.as_str(), name) {
                proof {
                    lemma_first_index_found(self@.spaces, space_named(name@), k as int);
                }
                return Some(k);
            }
            k += 1;
        }
        proof {
            lemma_first_index_absent(self@.spaces, space_named(name@));
        }
        None
    }

    /// The first of the space's own items called `name`. Child spaces are
    /// not searched.
    pub fn find_item(&self, name: &str) -> (res: Option<&Item>)
        ensures
            match first_index(self@.items, item_named(name@)) {
                Some(i) => res is Some && res.unwrap()@ == self@.items[i],
                None => res is None,
            },
    {
        match self.item_position(name) {
            Some(k) => Some(&self.items[k]),
            None => None,
        }
    }

    /// A handle on the first of the space's own items called `name`. Child
    /// spaces are not searched. What the caller writes through the handle
    /// replaces that item and nothing else.
    pub fn find_item_mut(&mut self, name: &str) -> (res: Option<&mut Item>)
        ensures
            match first_index(old(self)@.items, item_named(name@)) {
                Some(i) => res is Some && res.unwrap()@ == old(self)@.items[i] && final(self)@ == (
                SpaceView {
                    items: old(self)@.items.update(i, final(res.unwrap())@),
                    ..old(self)@
                }),
                None => res is None && final(self)@ == old(self)@,
            },
    {
        match self.item_position(name) {
            Some(k) => {
                let ghost fin = *final(self);
                let item = &mut self.items[k];
                proof {
                    fin.lemma_view();
                    assert(fin@.items =~= old(self)@.items.update(k as int, final(item)@));
                }
                Some(item)
            },
            None => None,
        }
    }

    /// Removes the first of the space's own items called `name` and returns
    /// it. Child spaces are not searched; the other items keep their order.
    pub fn remove_item_local(&mut self, name: &str) -> (res: Option<Item>)
        ensures
            final(self)@ == old(self)@.take_item(name@).0,
            match old(self)@.take_item(name@).1 {
                Some(i) => res is Some && res.unwrap()@ == i,
                None => res is None,
            },
    {
        match self.item_position(name) {
            Some(k) => {
                let item = self.items.remove(k);
                assert(self@.items =~= old(self)@.items.remove(k as int));
                Some(item)
            },
            None => None,
        }
    }

    /// Removes the first of the space's direct children called `name` and
    /// returns it with its whole subtree. Grandchildren are not searched;
    /// the other children keep their order.
    pub fn remove_direct_space(&mut self, name: &str) -> (res: Option<Space>)
        ensures
            final(self)@ == old(self)@.take_space(name@).0,
            match old(self)@.take_space(name@).1 {
                Some(s) => res is Some && res.unwrap()@ == s,
                None => res is None,
            },
    {
        proof {
            self.lemma_view();
        }
        match self.space_position(name) {
            Some(k) => {
                let space = self.spaces.remove(k);
                proof {
                    self.lemma_view();
                    assert(self@.spaces =~= old(self)@.spaces.remove(k as int));
                }
                Some(space)
            },
            None => None,
        }
    }

    /// Moves every item of the tree to the end of `out`, in depth-first
    /// pre-order.
    fn pour_items(self, out: &mut Vec<Item>)
        ensures
            item_views(final(out)@) == item_views(old(out)@) + self@.all_items(),
        decreases self,
    {
        proof {
            self.lemma_view();
        }
        let Space { name: _, items, spaces, root: _ } = self;
        let mut own = items;
        out.append(&mut own);
        assert(item_views(out@) =~= item_views(old(out)@) + self@.items);
        for child in it: spaces
            invariant
                it.seq() == self.spaces@,
                self@.spaces == space_views(self.spaces@),
                item_views(out@) == item_views(old(out)@) + self@.items + SpaceView::all_items_of(
                    self@.spaces,
                    it.index() as int,
                ),
        {
            child.pour_items(out);
            assert(item_views(out@) =~= item_views(old(out)@) + self@.items
                + SpaceView::all_items_of(self@.spaces, it.index() + 1));
        }
        assert(item_views(out@) =~= item_views(old(out)@) + self@.all_items());
    }

    /// Every item of the tree, taken out of it in depth-first pre-order:
    /// the space's own items, then those of each child's subtree. The
    /// spaces themselves are dropped.
    pub fn collect_items(self) -> (res: Vec<Item>)
        ensures
            item_views(res@) == self@.all_items(),
    {
        let mut out: Vec<Item> = Vec::new();
        self.pour_items(&mut out);
        assert(item_views(out@) =~= self@.all_items());
        out
    }

    /// Deletes the direct child called `name` and appends every item of
    /// that child's subtree, in depth-first pre-order, to the space's own
    /// items. The child's spaces are dropped. Grandchildren are not
    /// searched for the name; where no direct child has it the space is
    /// unchanged.
    pub fn delete_merge(&mut self, name: &str) -> (res: Result<(), NotFound>)
        ensures
            match old(self)@.merge_child(name@) {
                Some(merged) => res is Ok && final(self)@ == merged,
                None => res == Err::<(), NotFound>(NotFound::Space) && final(self)@ == old(self)@,
            },
    {
        match self.remove_direct_space(name) {
            Some(child) => {
                let items = child.collect_items();
                self.add_items(items);
                Ok(())
            },
            None => Err(NotFound::Space),
        }
    }
}

} // verus!
