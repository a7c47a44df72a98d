//! What holds of the operations on every tree: each law is stated over the
//! model that the operations' contracts use, and proved.

use crate::commands::{deleted_space, moved_items};
use crate::lemmas::{
    lemma_at_put, lemma_count_of_remove, lemma_count_put, lemma_count_remove_items,
    lemma_first_index, lemma_first_path_from, lemma_first_path_sound, lemma_holds_item,
    lemma_named_in_children, lemma_named_in_either, lemma_preorder_antisymmetric,
    lemma_put_keeps_items_elsewhere, lemma_remove_items_skeleton, lemma_same_skeleton_search,
    lemma_skeleton_put,
};
use crate::model::{
    first_index, holds_item, item_named, named_in, preorder_le, space_named, ItemView, SpaceView,
};
use vstd::prelude::*;

verus! {

/// A search returns the first match in depth-first pre-order: where any
/// node `q` of the tree satisfies `pred`, the search finds a node that
/// satisfies `pred`, and that node comes no later than `q`.
pub proof fn law_search_finds_first(t: SpaceView, pred: spec_fn(SpaceView) -> bool, q: Seq<int>)
    requires
        t.has_path(q),
        pred(t.at(q)),
    ensures
        t.first_path(pred) is Some,
        t.has_path(t.first_path(pred).unwrap()),
        pred(t.at(t.first_path(pred).unwrap())),
        preorder_le(t.first_path(pred).unwrap(), q),
    decreases t,
{
    lemma_first_path_sound(t, pred);
    if !pred(t) {
        let child = t.spaces[q[0]];
        law_search_finds_first(child, pred, q.drop_first());
        lemma_first_path_from(t.spaces, pred, 0);
    }
}

/// A search returns nothing only where no node of the tree satisfies
/// `pred`.
pub proof fn law_search_misses_nothing(
    t: SpaceView,
    pred: spec_fn(SpaceView) -> bool,
    q: Seq<int>,
)
    requires
        t.first_path(pred) is None,
        t.has_path(q),
    ensures
        !pred(t.at(q)),
{
    if pred(t.at(q)) {
        law_search_finds_first(t, pred, q);
    }
}

/// A search by name never returns a space where another space of that
/// name comes earlier in pre-order.
pub proof fn law_find_never_returns_a_later_match(
    t: SpaceView,
    name: Seq<char>,
    earlier: Seq<int>,
    later: Seq<int>,
)
    requires
        t.has_path(earlier),
        t.at(earlier).name == name,
        preorder_le(earlier, later),
        earlier != later,
    ensures
        t.first_path(space_named(name)) is Some,
        t.first_path(space_named(name)) != Some(later),
{
    law_search_finds_first(t, space_named(name), earlier);
    if t.first_path(space_named(name)) == Some(later) {
        lemma_preorder_antisymmetric(earlier, later);
    }
}

/// A space comes earlier in pre-order than every space below it: the path
/// to a space is a prefix of the paths to the spaces below it.
pub proof fn law_ancestor_comes_earlier(upper: Seq<int>, lower: Seq<int>)
    requires
        upper.is_prefix_of(lower),
    ensures
        preorder_le(upper, lower),
    decreases upper.len(),
{
    if upper.len() > 0 {
        assert(upper[0] == lower[0]);
        assert(upper.drop_first().is_prefix_of(lower.drop_first()));
        law_ancestor_comes_earlier(upper.drop_first(), lower.drop_first());
    }
}

/// Of two children of one space, the earlier one comes earlier in
/// pre-order, and so does everything below it: `parent + [i] + below`
/// comes before `parent + [j] + other` where `i < j`.
pub proof fn law_earlier_sibling_comes_earlier(
    parent: Seq<int>,
    i: int,
    j: int,
    below: Seq<int>,
    other: Seq<int>,
)
    requires
        i < j,
    ensures
        preorder_le(parent + seq![i] + below, parent + seq![j] + other),
    decreases parent.len(),
{
    let p = parent + seq![i] + below;
    let q = parent + seq![j] + other;
    if parent.len() > 0 {
        assert(p.drop_first() =~= parent.drop_first() + seq![i] + below);
        assert(q.drop_first() =~= parent.drop_first() + seq![j] + other);
        law_earlier_sibling_comes_earlier(parent.drop_first(), i, j, below, other);
    }
}

/// What a space of the tree holds in its own list is in the tree.
pub proof fn law_item_of_a_space_is_in_the_tree(t: SpaceView, name: Seq<char>, q: Seq<int>)
    requires
        t.has_path(q),
        holds_item(name)(t.at(q)),
    ensures
        t.has_item(name),
    decreases q.len(),
{
    lemma_named_in_either(
        t.items,
        SpaceView::all_items_of(t.spaces, t.spaces.len() as int),
        name,
    );
    if q.len() == 0 {
        lemma_holds_item(t, name);
    } else {
        law_item_of_a_space_is_in_the_tree(t.spaces[q[0]], name, q.drop_first());
        lemma_named_in_children(t.spaces, t.spaces.len() as int, name);
    }
}

/// What is in the tree is in the own list of one of its spaces.
pub proof fn law_item_in_the_tree_is_of_a_space(t: SpaceView, name: Seq<char>) -> (q: Seq<int>)
    requires
        t.has_item(name),
    ensures
        t.has_path(q),
        holds_item(name)(t.at(q)),
    decreases t,
{
    lemma_named_in_either(
        t.items,
        SpaceView::all_items_of(t.spaces, t.spaces.len() as int),
        name,
    );
    lemma_holds_item(t, name);
    if named_in(t.items, name) {
        Seq::empty()
    } else {
        lemma_named_in_children(t.spaces, t.spaces.len() as int, name);
        let c = choose|c: int| 0 <= c < t.spaces.len() && (#[trigger] t.spaces[c]).has_item(name);
        let below = law_item_in_the_tree_is_of_a_space(t.spaces[c], name);
        let q = seq![c] + below;
        assert(q.drop_first() =~= below);
        q
    }
}

/// A removal returns an item exactly where an item of that name is in the
/// tree, and what it returns has that name.
pub proof fn law_remove_item_finds_what_is_there(t: SpaceView, name: Seq<char>)
    ensures
        t.remove_item(name).1 is Some <==> t.has_item(name),
        t.remove_item(name).1 matches Some(item) ==> item.name == name,
{
    lemma_first_path_sound(t, holds_item(name));
    if let Some(p) = t.first_path(holds_item(name)) {
        lemma_first_index(t.at(p).items, item_named(name));
        law_item_of_a_space_is_in_the_tree(t, name, p);
    }
    if t.has_item(name) {
        let q = law_item_in_the_tree_is_of_a_space(t, name);
        law_search_finds_first(t, holds_item(name), q);
    }
}

/// Removing an item that is missing returns nothing and leaves the tree as
/// it was.
pub proof fn law_remove_missing_item(t: SpaceView, name: Seq<char>)
    requires
        !t.has_item(name),
    ensures
        t.remove_item(name) == (t, None::<ItemView>),
{
    law_remove_item_finds_what_is_there(t, name);
    lemma_first_path_sound(t, holds_item(name));
}

/// Removing a missing item any number of times returns nothing each time
/// and leaves the tree as it was.
pub proof fn law_remove_missing_item_repeated(t: SpaceView, name: Seq<char>, times: nat)
    requires
        !t.has_item(name),
    ensures
        t.remove_items(Seq::new(times, |i: int| name)) == (t, Seq::<ItemView>::empty()),
    decreases times,
{
    let names = Seq::new(times, |i: int| name);
    if times > 0 {
        law_remove_missing_item_repeated(t, name, (times - 1) as nat);
        assert(names.drop_last() =~= Seq::new((times - 1) as nat, |i: int| name));
        law_remove_missing_item(t, name);
    }
}

/// A removal that returns nothing has changed nothing.
pub proof fn law_remove_item_nothing_unchanged(t: SpaceView, name: Seq<char>)
    requires
        t.remove_item(name).1 is None,
    ensures
        t.remove_item(name).0 == t,
{
    lemma_first_path_sound(t, holds_item(name));
    if let Some(p) = t.first_path(holds_item(name)) {
        lemma_first_index(t.at(p).items, item_named(name));
    }
}

/// Moving items keeps the number of items of the tree.
pub proof fn law_move_items_keeps_count(
    t: SpaceView,
    from: Seq<char>,
    to: Seq<char>,
    names: Seq<Seq<char>>,
)
    requires
        moved_items(t, from, to, names) is Ok,
    ensures
        moved_items(t, from, to, names).unwrap().count_items() == t.count_items(),
{
    let sp = t.first_path(space_named(from)).unwrap();
    let (source, got) = t.at(sp).remove_items(names);
    let lighter = t.put(sp, source);
    let dp = lighter.first_path(space_named(to)).unwrap();
    let fuller = SpaceView { items: lighter.at(dp).items + got, ..lighter.at(dp) };
    lemma_first_path_sound(t, space_named(from));
    lemma_first_path_sound(lighter, space_named(to));
    lemma_count_remove_items(t.at(sp), names);
    lemma_count_put(t, sp, source);
    lemma_count_put(lighter, dp, fuller);
}

/// The items that a move took out of the own list of the source.
pub open spec fn taken_from_source(
    t: SpaceView,
    from: Seq<char>,
    names: Seq<Seq<char>>,
) -> int {
    let sp = t.first_path(space_named(from)).unwrap();
    t.at(sp).items.len() - t.at(sp).remove_items(names).0.items.len()
}

/// The items that a move took out of the own list of the destination,
/// where the destination is another space than the source.
pub open spec fn taken_from_destination(
    t: SpaceView,
    from: Seq<char>,
    to: Seq<char>,
    names: Seq<Seq<char>>,
) -> int {
    let sp = t.first_path(space_named(from)).unwrap();
    let dp = t.first_path(space_named(to)).unwrap();
    if sp == dp {
        0
    } else {
        t.at(dp).items.len() - t.put(sp, t.at(sp).remove_items(names).0).at(dp).items.len()
    }
}

/// A move of items leaves the sum of the lengths of the own lists of the
/// source and of the destination as it was exactly where every item that
/// was moved came out of one of these two lists, and none out of another
/// space below the source.
pub proof fn law_move_items_source_and_destination(
    t: SpaceView,
    from: Seq<char>,
    to: Seq<char>,
    names: Seq<Seq<char>>,
)
    requires
        moved_items(t, from, to, names) is Ok,
    ensures
        ({
            let after = moved_items(t, from, to, names).unwrap();
            let sp = t.first_path(space_named(from)).unwrap();
            let dp = t.first_path(space_named(to)).unwrap();
            let moved = t.at(sp).remove_items(names).1.len();
            &&& t.has_path(sp) && t.has_path(dp) && after.has_path(sp) && after.has_path(dp)
            &&& (after.at(sp).items.len() + after.at(dp).items.len() == t.at(sp).items.len()
                + t.at(dp).items.len()) <==> (moved == taken_from_source(t, from, names)
                + taken_from_destination(t, from, to, names))
        }),
{
    let sp = t.first_path(space_named(from)).unwrap();
    let (source, got) = t.at(sp).remove_items(names);
    let lighter = t.put(sp, source);
    let dp = lighter.first_path(space_named(to)).unwrap();
    let fuller = SpaceView { items: lighter.at(dp).items + got, ..lighter.at(dp) };
    let after = lighter.put(dp, fuller);
    lemma_first_path_sound(t, space_named(from));
    lemma_first_path_sound(lighter, space_named(to));
    lemma_remove_items_skeleton(t.at(sp), names);
    lemma_skeleton_put(t, sp, source);
    lemma_same_skeleton_search(lighter, t, to);
    lemma_first_path_sound(t, space_named(to));
    lemma_at_put(t, sp, source);
    lemma_at_put(lighter, dp, fuller);
    if sp != dp {
        lemma_put_keeps_items_elsewhere(lighter, dp, fuller, sp);
    }
}

/// Deleting a direct child and merging its items: the items found
/// anywhere in the deleted subtree all reappear, in depth-first pre-order,
/// at the end of the space's own items; the deleted child is gone from the
/// children with every space below it, and the other children stay as they
/// were; the number of items of the tree is as it was.
pub proof fn law_delete_merge(t: SpaceView, name: Seq<char>)
    requires
        t.merge_child(name) is Some,
    ensures
        ({
            let merged = t.merge_child(name).unwrap();
            let i = first_index(t.spaces, space_named(name)).unwrap();
            &&& 0 <= i < t.spaces.len()
            &&& t.spaces[i].name == name
            &&& merged.items == t.items + t.spaces[i].all_items()
            &&& merged.items.len() == t.items.len() + t.spaces[i].count_items()
            &&& merged.spaces == t.spaces.remove(i)
            &&& merged.name == t.name
            &&& merged.root == t.root
            &&& merged.count_items() == t.count_items()
        }),
{
    lemma_first_index(t.spaces, space_named(name));
    let i = first_index(t.spaces, space_named(name)).unwrap();
    lemma_count_of_remove(t.spaces, i, t.spaces.len() - 1);
}

/// Deleting a space from a tree keeps the number of items of the tree.
pub proof fn law_delete_space_keeps_count(t: SpaceView, parent: Seq<char>, space: Seq<char>)
    requires
        deleted_space(t, parent, space) is Ok,
    ensures
        deleted_space(t, parent, space).unwrap().count_items() == t.count_items(),
{
    let p = t.first_path(space_named(parent)).unwrap();
    lemma_first_path_sound(t, space_named(parent));
    law_delete_merge(t.at(p), space);
    lemma_count_put(t, p, t.at(p).merge_child(space).unwrap());
}

} // verus!
