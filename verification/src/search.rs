//! Searches and removals that walk a whole tree of spaces.

use crate::item::{item_views, Item};
use crate::lemmas::{lemma_first_path_some_iff, lemma_first_path_sound};
use crate::model::{holds_item, holds_space, space_named, SpaceView};
use crate::space::{space_views, Space};
use crate::text::{same_text, texts};
use vstd::prelude::*;

verus! {

/// A path of child indices, as the model counts them.
pub open spec fn path_of(v: Seq<usize>) -> Seq<int> {
    v.map_values(|i: usize| i as int)
}

/// What a walk looks for at each space.
#[derive(Clone, Copy)]
pub(crate) enum Probe {
    /// The space itself has the name.
    Named,
    /// A direct child of the space has the name.
    HoldsSpace,
}

impl Probe {
    /// The test that the probe stands for.
    pub(crate) open spec fn test(self, name: Seq<char>) -> spec_fn(SpaceView) -> bool {
        match self {
            Probe::Named => space_named(name),
            Probe::HoldsSpace => holds_space(name),
        }
    }
}

/// Replacing one space of a sequence replaces its view among the views.
proof fn lemma_views_update(spaces: Seq<Space>, i: int, s: Space)
    requires
        0 <= i < spaces.len(),
    ensures
        space_views(spaces.update(i, s)) == space_views(spaces).update(i, s@),
{
    assert(space_views(spaces.update(i, s)) =~= space_views(spaces).update(i, s@));
}

impl Space {
    /// Whether the space passes the probe's test.
    pub(crate) fn passes(&self, probe: Probe, name: &str) -> (res: bool)
        ensures
            res == probe.test(name@)(self@),
    {
        proof {
            self.lemma_view();
        }
        match probe {
            Probe::Named => same_text(self.name.as_str(), name),
            Probe::HoldsSpace => self.space_position(name).is_some(),
        }
    }

    /// Walks the tree in depth-first pre-order and, where a space passes the
    /// probe's test, leaves the path of the first such space at the end of
    /// `trail`.
    pub(crate) fn trace(&self, probe: Probe, name: &str, trail: &mut Vec<usize>) -> (found: bool)
        ensures
            match self@.first_path(probe.test(name@)) {
                Some(p) => found && path_of(final(trail)@) == path_of(old(trail)@) + p,
                None => !found && final(trail)@ == old(trail)@,
            },
        decreases self,
    {
        proof {
            self.lemma_view();
        }
        if self.passes(probe, name) {
            assert(path_of(trail@) =~= path_of(trail@) + Seq::<int>::empty());
            return true;
        }
        let ghost pred = probe.test(name@);
        let mut i: usize = 0;
        while i < self.spaces.len()
            invariant
                i <= self.spaces.len(),
                pred == probe.test(name@),
                self@.spaces == space_views(self.spaces@),
                trail@ == old(trail)@,
                self@.first_path(pred) == SpaceView::first_path_from(self@.spaces, pred, i as int),
            decreases self.spaces.len() - i,
        {
            trail.push(i);
            if self.spaces[i].trace(probe, name, trail) {
                proof {
                    let p = self@.spaces[i as int].first_path(pred).unwrap();
                    assert(path_of(trail@) =~= path_of(old(trail)@) + (seq![i as int] + p));
                }
                return true;
            }
            trail.pop();
            assert(trail@ =~= old(trail)@);
            i += 1;
        }
        false
    }

    /// A handle on the space that `path[k..]` leads to.
    pub(crate) fn at_mut(&mut self, path: &Vec<usize>, k: usize) -> (res: &mut Space)
        requires
            k <= path.len(),
            old(self)@.has_path(path_of(path@.skip(k as int))),
        ensures
            res@ == old(self)@.at(path_of(path@.skip(k as int))),
            final(self)@ == old(self)@.put(path_of(path@.skip(k as int)), final(res)@),
        decreases path.len() - k,
    {
        let ghost p = path_of(path@.skip(k as int));
        proof {
            self.lemma_view();
        }
        if k == path.len() {
            self
        } else {
            assert(p[0] == path@[k as int]);
            assert(p.drop_first() =~= path_of(path@.skip(k as int + 1)));
            let ghost fin = *final(self);
            let sub = self.spaces[path[k]].at_mut(path, k + 1);
            proof {
                fin.lemma_view();
                assert(fin@.spaces =~= old(self)@.spaces.update(
                    p[0],
                    old(self)@.spaces[p[0]].put(p.drop_first(), final(sub)@),
                ));
            }
            sub
        }
    }

    /// The first space called `name` in depth-first pre-order: the space
    /// itself is tested first, then each child's whole subtree, in the order
    /// of the children.
    pub fn find_space(&self, name: &str) -> (res: Option<&Space>)
        ensures
            match self@.first_path(space_named(name@)) {
                Some(p) => res is Some && res.unwrap()@ == self@.at(p),
                None => res is None,
            },
        decreases self,
    {
        proof {
            self.lemma_view();
        }
        if same_text(self.name.as_str(), name) {
            return Some(self);
        }
        let mut i: usize = 0;
        while i < self.spaces.len()
            invariant
                i <= self.spaces.len(),
                self@.spaces == space_views(self.spaces@),
                self@.first_path(space_named(name@)) == SpaceView::first_path_from(
                    self@.spaces,
                    space_named(name@),
                    i as int,
                ),
            decreases self.spaces.len() - i,
        {
            let found = self.spaces[i].find_space(name);
            if found.is_some() {
                proof {
                    let p = self@.spaces[i as int].first_path(space_named(name@)).unwrap();
                    assert((seq![i as int] + p).drop_first() =~= p);
                }
                return found;
            }
            i += 1;
        }
        None
    }

    /// A handle on the space that [`Self::find_space`] finds. What the
    /// caller writes through the handle replaces that space in the tree and
    /// nothing else.
    pub fn find_space_mut(&mut self, name: &str) -> (res: Option<&mut Space>)
        ensures
            match old(self)@.first_path(space_named(name@)) {
                Some(p) => res is Some && res.unwrap()@ == old(self)@.at(p) && final(self)@ == old(
                    self,
                )@.put(p, final(res.unwrap())@),
                None => res is None && final(self)@ == old(self)@,
            },
    {
        let mut path: Vec<usize> = Vec::new();
        if self.trace(Probe::Named, name, &mut path) {
            proof {
                let p = self@.first_path(space_named(name@)).unwrap();
                lemma_first_path_sound(self@, space_named(name@));
                assert(path_of(path@) =~= p);
                assert(path@.skip(0) =~= path@);
            }
            Some(self.at_mut(&path, 0))
        } else {
            None
        }
    }

    /// Removes the first item called `name` found by a depth-first
    /// pre-order walk (a space's own items before its children's) and
    /// returns it. The items that stay keep their order; where no item has
    /// the name the tree is unchanged.
    pub fn remove_item(&mut self, name: &str) -> (res: Option<Item>)
        ensures
            final(self)@ == old(self)@.remove_item(name@).0,
            match old(self)@.remove_item(name@).1 {
                Some(i) => res is Some && res.unwrap()@ == i,
                None => res is None,
            },
        decreases old(self)@,
    {
        let ghost pred = holds_item(name@);
        let own = self.remove_item_local(name);
        if own.is_some() {
            return own;
        }
        proof {
            self.lemma_view();
        }
        let mut i: usize = 0;
        while i < self.spaces.len()
            invariant
                i <= self.spaces.len(),
                pred == holds_item(name@),
                self@ == old(self)@,
                self@.spaces == space_views(self.spaces@),
                self@.first_path(pred) == SpaceView::first_path_from(self@.spaces, pred, i as int),
            decreases self.spaces.len() - i,
        {
            let ghost before = self.spaces@;
            proof {
                self.lemma_view();
                lemma_first_path_sound(self@.spaces[i as int], pred);
            }
            let found = self.spaces[i].remove_item(name);
            proof {
                self.lemma_view();
                lemma_views_update(before, i as int, self.spaces@[i as int]);
                assert(self.spaces@ =~= before.update(i as int, self.spaces@[i as int]));
            }
            if found.is_some() {
                proof {
                    let p = old(self)@.spaces[i as int].first_path(pred).unwrap();
                    assert((seq![i as int] + p).drop_first() =~= p);
                }
                return found;
            }
            assert(self@.spaces =~= old(self)@.spaces);
            i += 1;
        }
        None
    }

    /// Removes the first space called `name` found by a depth-first
    /// pre-order walk that examines, at each space, the direct children
    /// before it descends into them, and returns it with its whole subtree.
    /// The space that the walk starts from is never removed. The children
    /// that stay keep their order; where no space below the start has the
    /// name the tree is unchanged.
    pub fn remove_space(&mut self, name: &str) -> (res: Option<Space>)
        ensures
            final(self)@ == old(self)@.remove_space(name@).0,
            match old(self)@.remove_space(name@).1 {
                Some(s) => res is Some && res.unwrap()@ == s,
                None => res is None,
            },
        decreases old(self)@,
    {
        let ghost pred = holds_space(name@);
        let own = self.remove_direct_space(name);
        if own.is_some() {
            return own;
        }
        proof {
            self.lemma_view();
        }
        let mut i: usize = 0;
        while i < self.spaces.len()
            invariant
                i <= self.spaces.len(),
                pred == holds_space(name@),
                self@ == old(self)@,
                self@.spaces == space_views(self.spaces@),
                self@.first_path(pred) == SpaceView::first_path_from(self@.spaces, pred, i as int),
            decreases self.spaces.len() - i,
        {
            let ghost before = self.spaces@;
            proof {
                self.lemma_view();
                lemma_first_path_sound(self@.spaces[i as int], pred);
            }
            let found = self.spaces[i].remove_space(name);
            proof {
                self.lemma_view();
                lemma_views_update(before, i as int, self.spaces@[i as int]);
                assert(self.spaces@ =~= before.update(i as int, self.spaces@[i as int]));
            }
            if found.is_some() {
                proof {
                    let p = old(self)@.spaces[i as int].first_path(pred).unwrap();
                    assert((seq![i as int] + p).drop_first() =~= p);
                }
                return found;
            }
            assert(self@.spaces =~= old(self)@.spaces);
            i += 1;
        }
        None
    }

    /// Removes one item for each of `names`, in their order, each by
    /// [`Self::remove_item`], and returns the items that came out, in the
    /// order of their names. A name that finds no item is passed over; a
    /// name given twice takes out two items only where two are there.
    pub fn remove_items(&mut self, names: &Vec<String>) -> (res: Vec<Item>)
        ensures
            final(self)@ == old(self)@.remove_items(texts(names@)).0,
            item_views(res@) == old(self)@.remove_items(texts(names@)).1,
    {
        let mut removed: Vec<Item> = Vec::new();
        let mut k: usize = 0;
        assert(item_views(removed@) =~= Seq::empty());
        while k < names.len()
            invariant
                k <= names.len(),
                self@ == old(self)@.remove_items(texts(names@).take(k as int)).0,
                item_views(removed@) == old(self)@.remove_items(texts(names@).take(k as int)).1,
            decreases names.len() - k,
        {
            proof {
                let upto = texts(names@).take(k + 1);
                assert(upto.drop_last() =~= texts(names@).take(k as int));
                assert(upto.last() == names@[k as int]@);
            }
            let ghost got = item_views(removed@);
            match self.remove_item(names[k].as_str()) {
                Some(item) => {
                    removed.push(item);
                    assert(item_views(removed@) =~= got.push(item@));
                },
                None => {},
            }
            k += 1;
        }
        assert(texts(names@).take(k as int) =~= texts(names@));
        removed
    }

    /// Whether a space called `name` is left in the tree once the space
    /// that `path[k..]` leads to has lost its first direct child called
    /// `child`, with that child's whole subtree. Nothing is removed.
    pub(crate) fn found_without(&self, name: &str, path: &Vec<usize>, k: usize, child: &str) -> (res:
        bool)
        requires
            k <= path.len(),
            self@.has_path(path_of(path@.skip(k as int))),
            holds_space(child@)(self@.at(path_of(path@.skip(k as int)))),
        ensures
            res == (self@.put(
                path_of(path@.skip(k as int)),
                self@.at(path_of(path@.skip(k as int))).take_space(child@).0,
            ).first_path(space_named(name@)) is Some),
        decreases path.len() - k,
    {
        let ghost p = path_of(path@.skip(k as int));
        let ghost pred = space_named(name@);
        let ghost left = self@.put(p, self@.at(p).take_space(child@).0);
        proof {
            self.lemma_view();
            lemma_first_path_some_iff(left, pred);
        }
        if same_text(self.name.as_str(), name) {
            return true;
        }
        if k == path.len() {
            let skipped = self.space_position(child).unwrap();
            let mut i: usize = 0;
            while i < self.spaces.len()
                invariant
                    i <= self.spaces.len(),
                    skipped < self.spaces.len(),
                    pred == space_named(name@),
                    self@.spaces == space_views(self.spaces@),
                    left.spaces == self@.spaces.remove(skipped as int),
                    left.first_path(pred) is Some <==> (pred(left) || exists|j: int|
                        0 <= j < left.spaces.len() && (#[trigger] left.spaces[j]).first_path(pred)
                            is Some),
                    left == self@.put(
                        path_of(path@.skip(k as int)),
                        self@.at(path_of(path@.skip(k as int))).take_space(child@).0,
                    ),
                    forall|j: int|
                        0 <= j < i && j != skipped ==> (#[trigger] self@.spaces[j]).first_path(pred)
                            is None,
                decreases self.spaces.len() - i,
            {
                assert(self@.spaces[i as int] == self.spaces@[i as int]@);
                if i != skipped && self.spaces[i].find_space(name).is_some() {
                    proof {
                        let j = if i < skipped {
                            i as int
                        } else {
                            i - 1
                        };
                        assert(left.spaces[j] == self@.spaces[i as int]);
                    }
                    return true;
                }
                i += 1;
            }
            proof {
                assert forall|j: int| 0 <= j < left.spaces.len() implies (#[trigger] left.spaces[j]).first_path(
                    pred,
                ) is None by {
                    if j < skipped {
                        assert(left.spaces[j] == self@.spaces[j]);
                    } else {
                        assert(left.spaces[j] == self@.spaces[j + 1]);
                    }
                }
            }
            false
        } else {
            let on_path = path[k];
            let ghost rest = path_of(path@.skip(k as int + 1));
            proof {
                assert(p[0] == on_path);
                assert(p.drop_first() =~= rest);
            }
            let mut i: usize = 0;
            while i < self.spaces.len()
                invariant
                    i <= self.spaces.len(),
                    k < path.len(),
                    on_path < self.spaces.len(),
                    pred == space_named(name@),
                    rest == path_of(path@.skip(k as int + 1)),
                    self@.spaces == space_views(self.spaces@),
                    self@.spaces[on_path as int].has_path(rest),
                    holds_space(child@)(self@.spaces[on_path as int].at(rest)),
                    left.first_path(pred) is Some <==> (pred(left) || exists|j: int|
                        0 <= j < left.spaces.len() && (#[trigger] left.spaces[j]).first_path(pred)
                            is Some),
                    left == self@.put(
                        path_of(path@.skip(k as int)),
                        self@.at(path_of(path@.skip(k as int))).take_space(child@).0,
                    ),
                    left.spaces == self@.spaces.update(
                        on_path as int,
                        self@.spaces[on_path as int].put(
                            rest,
                            self@.spaces[on_path as int].at(rest).take_space(child@).0,
                        ),
                    ),
                    forall|j: int| 0 <= j < i ==> (#[trigger] left.spaces[j]).first_path(pred) is None,
                decreases self.spaces.len() - i,
            {
                assert(self@.spaces[i as int] == self.spaces@[i as int]@);
                let hit = if i == on_path {
                    self.spaces[i].found_without(name, path, k + 1, child)
                } else {
                    self.spaces[i].find_space(name).is_some()
                };
                if hit {
                    assert(left.spaces[i as int].first_path(pred) is Some);
                    return true;
                }
                i += 1;
            }
            false
        }
    }
}

} // verus!
