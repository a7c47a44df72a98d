//! Facts about the model that the proofs of the operations and of the laws
//! rest on.

use crate::model::{
    first_index, holds_item, is_first_index, item_named, named_in, preorder_le, space_named,
    ItemView, SpaceView,
};
use vstd::prelude::*;

verus! {

/// What a search among children returns: the first child from `from` on
/// whose subtree holds a match, and the match's path in that subtree.
pub proof fn lemma_first_path_from(
    spaces: Seq<SpaceView>,
    pred: spec_fn(SpaceView) -> bool,
    from: int,
)
    requires
        0 <= from,
    ensures
        match SpaceView::first_path_from(spaces, pred, from) {
            Some(p) => {
                &&& p.len() > 0
                &&& from <= p[0] < spaces.len()
                &&& spaces[p[0]].first_path(pred) == Some(p.drop_first())
                &&& forall|j: int| from <= j < p[0] ==> (#[trigger] spaces[j]).first_path(pred) is None
            },
            None => forall|j: int|
                from <= j < spaces.len() ==> (#[trigger] spaces[j]).first_path(pred) is None,
        },
    decreases spaces.len() - from,
{
    if from < spaces.len() {
        match spaces[from].first_path(pred) {
            Some(q) => {
                assert((seq![from] + q).drop_first() =~= q);
            },
            None => {
                lemma_first_path_from(spaces, pred, from + 1);
            },
        }
    }
}

/// What `first_path` returns leads to a node of the tree, and that node
/// satisfies `pred`.
pub proof fn lemma_first_path_sound(t: SpaceView, pred: spec_fn(SpaceView) -> bool)
    ensures
        t.first_path(pred) matches Some(p) ==> t.has_path(p) && pred(t.at(p)),
    decreases t,
{
    if !pred(t) {
        lemma_first_path_from(t.spaces, pred, 0);
        if let Some(p) = SpaceView::first_path_from(t.spaces, pred, 0) {
            lemma_first_path_sound(t.spaces[p[0]], pred);
        }
    }
}

/// Putting back what is already there changes nothing.
pub proof fn lemma_put_same(t: SpaceView, p: Seq<int>)
    requires
        t.has_path(p),
    ensures
        t.put(p, t.at(p)) == t,
    decreases p.len(),
{
    if p.len() > 0 {
        lemma_put_same(t.spaces[p[0]], p.drop_first());
        assert(t.spaces.update(p[0], t.spaces[p[0]]) =~= t.spaces);
    }
}

/// After a replacement the path still leads somewhere: to the replacement.
pub proof fn lemma_at_put(t: SpaceView, p: Seq<int>, sub: SpaceView)
    requires
        t.has_path(p),
    ensures
        t.put(p, sub).has_path(p),
        t.put(p, sub).at(p) == sub,
    decreases p.len(),
{
    if p.len() > 0 {
        lemma_at_put(t.spaces[p[0]], p.drop_first(), sub);
    }
}

/// A search finds something exactly where the top of the tree, or the
/// subtree of one of its children, holds a match.
pub proof fn lemma_first_path_some_iff(t: SpaceView, pred: spec_fn(SpaceView) -> bool)
    ensures
        t.first_path(pred) is Some <==> (pred(t) || exists|j: int|
            0 <= j < t.spaces.len() && (#[trigger] t.spaces[j]).first_path(pred) is Some),
{
    lemma_first_path_from(t.spaces, pred, 0);
}

/// The skeletons of the first `n` children are the children's skeletons,
/// one by one.
pub proof fn lemma_skeletons(spaces: Seq<SpaceView>, n: int)
    requires
        0 <= n <= spaces.len(),
    ensures
        SpaceView::skeletons(spaces, n).len() == n,
        forall|i: int|
            0 <= i < n ==> (#[trigger] SpaceView::skeletons(spaces, n)[i]) == spaces[i].skeleton(),
    decreases n,
{
    if n > 0 {
        lemma_skeletons(spaces, n - 1);
    }
}

/// Two trees with the same skeleton have the same name and root flag at
/// the top, and as many children, with the same skeletons one by one.
pub proof fn lemma_same_skeleton(a: SpaceView, b: SpaceView)
    requires
        a.skeleton() == b.skeleton(),
    ensures
        a.name == b.name,
        a.root == b.root,
        a.spaces.len() == b.spaces.len(),
        forall|i: int|
            0 <= i < a.spaces.len() ==> (#[trigger] a.spaces[i]).skeleton() == b.spaces[i].skeleton(),
{
    lemma_skeletons(a.spaces, a.spaces.len() as int);
    lemma_skeletons(b.spaces, b.spaces.len() as int);
    assert forall|i: int| 0 <= i < a.spaces.len() implies (#[trigger] a.spaces[i]).skeleton()
        == b.spaces[i].skeleton() by {
        assert(a.skeleton().spaces[i] == a.spaces[i].skeleton());
        assert(b.skeleton().spaces[i] == b.spaces[i].skeleton());
    }
}

/// Trees whose children have the same skeletons, one by one, and whose
/// tops agree in name and root flag, have the same skeleton.
pub proof fn lemma_skeleton_by_children(a: SpaceView, b: SpaceView)
    requires
        a.name == b.name,
        a.root == b.root,
        a.spaces.len() == b.spaces.len(),
        forall|i: int|
            0 <= i < a.spaces.len() ==> (#[trigger] a.spaces[i]).skeleton() == b.spaces[i].skeleton(),
    ensures
        a.skeleton() == b.skeleton(),
{
    lemma_skeletons(a.spaces, a.spaces.len() as int);
    lemma_skeletons(b.spaces, b.spaces.len() as int);
    assert(a.skeleton().spaces =~= b.skeleton().spaces);
}

/// A search for a space by its name sees the skeleton only.
pub proof fn lemma_same_skeleton_search(a: SpaceView, b: SpaceView, name: Seq<char>)
    requires
        a.skeleton() == b.skeleton(),
    ensures
        a.first_path(space_named(name)) == b.first_path(space_named(name)),
    decreases a, 0nat,
{
    lemma_same_skeleton(a, b);
    if a.name != name {
        lemma_same_skeleton_search_from(a.spaces, b.spaces, name, 0);
    }
}

/// The same, for a search among children that have the same skeletons one
/// by one.
proof fn lemma_same_skeleton_search_from(
    xs: Seq<SpaceView>,
    ys: Seq<SpaceView>,
    name: Seq<char>,
    from: int,
)
    requires
        0 <= from,
        xs.len() == ys.len(),
        forall|i: int| 0 <= i < xs.len() ==> (#[trigger] xs[i]).skeleton() == ys[i].skeleton(),
    ensures
        SpaceView::first_path_from(xs, space_named(name), from) == SpaceView::first_path_from(
            ys,
            space_named(name),
            from,
        ),
    decreases xs, xs.len() - from,
{
    if from < xs.len() {
        lemma_same_skeleton_search(xs[from], ys[from], name);
        lemma_same_skeleton_search_from(xs, ys, name, from + 1);
    }
}

/// Replacing a node by one of the same skeleton keeps the skeleton of the
/// tree.
pub proof fn lemma_skeleton_put(t: SpaceView, p: Seq<int>, sub: SpaceView)
    requires
        t.has_path(p),
        sub.skeleton() == t.at(p).skeleton(),
    ensures
        t.put(p, sub).skeleton() == t.skeleton(),
    decreases p.len(),
{
    if p.len() > 0 {
        lemma_skeleton_put(t.spaces[p[0]], p.drop_first(), sub);
        lemma_skeleton_by_children(t.put(p, sub), t);
    }
}

/// Taking an item out of a tree keeps the skeleton.
pub proof fn lemma_remove_item_skeleton(t: SpaceView, name: Seq<char>)
    ensures
        t.remove_item(name).0.skeleton() == t.skeleton(),
{
    if let Some(p) = t.first_path(holds_item(name)) {
        lemma_first_path_sound(t, holds_item(name));
        lemma_skeleton_by_children(t.at(p).take_item(name).0, t.at(p));
        lemma_skeleton_put(t, p, t.at(p).take_item(name).0);
    }
}

/// Taking items out of a tree keeps the skeleton.
pub proof fn lemma_remove_items_skeleton(t: SpaceView, names: Seq<Seq<char>>)
    ensures
        t.remove_items(names).0.skeleton() == t.skeleton(),
    decreases names.len(),
{
    if names.len() > 0 {
        lemma_remove_items_skeleton(t, names.drop_last());
        lemma_remove_item_skeleton(t.remove_items(names.drop_last()).0, names.last());
    }
}

/// A scan that finds `pred` at `i` and nowhere before it has found the
/// first index.
pub proof fn lemma_first_index_found<T>(s: Seq<T>, pred: spec_fn(T) -> bool, i: int)
    requires
        is_first_index(s, pred, i),
    ensures
        first_index(s, pred) == Some(i),
{
    let k = choose|k: int| is_first_index(s, pred, k);
    if k < i {
        assert(!pred(s[k]));
    } else if i < k {
        assert(!pred(s[i]));
    }
}

/// Where no element satisfies `pred` there is no first index.
pub proof fn lemma_first_index_absent<T>(s: Seq<T>, pred: spec_fn(T) -> bool)
    requires
        forall|j: int| 0 <= j < s.len() ==> !pred(#[trigger] s[j]),
    ensures
        first_index(s, pred) is None,
{
}

/// What `first_index` returns is the least index that satisfies `pred`, and
/// it returns nothing only where no element does.
pub proof fn lemma_first_index<T>(s: Seq<T>, pred: spec_fn(T) -> bool)
    ensures
        match first_index(s, pred) {
            Some(i) => is_first_index(s, pred, i),
            None => forall|j: int| 0 <= j < s.len() ==> !pred(#[trigger] s[j]),
        },
{
    if first_index(s, pred) is None {
        assert forall|j: int| 0 <= j < s.len() implies !pred(#[trigger] s[j]) by {
            if pred(s[j]) {
                lemma_least_index(s, pred, j);
            }
        }
    }
}

/// Below any index that satisfies `pred` there is a least one.
proof fn lemma_least_index<T>(s: Seq<T>, pred: spec_fn(T) -> bool, j: int)
    requires
        0 <= j < s.len(),
        pred(s[j]),
    ensures
        exists|i: int| is_first_index(s, pred, i),
    decreases j,
{
    if exists|k: int| 0 <= k < j && pred(s[k]) {
        let k = choose|k: int| 0 <= k < j && pred(s[k]);
        lemma_least_index(s, pred, k);
    } else {
        assert(is_first_index(s, pred, j));
    }
}

/// Two paths of which each comes no later than the other are one path.
pub proof fn lemma_preorder_antisymmetric(p: Seq<int>, q: Seq<int>)
    requires
        preorder_le(p, q),
        preorder_le(q, p),
    ensures
        p == q,
    decreases p.len(),
{
    if p.len() > 0 {
        lemma_preorder_antisymmetric(p.drop_first(), q.drop_first());
        assert(p =~= seq![p[0]] + p.drop_first());
        assert(q =~= seq![q[0]] + q.drop_first());
    } else {
        assert(p =~= q);
    }
}

/// An item is in a sequence put together from two exactly where it is in
/// one of the two.
pub proof fn lemma_named_in_either(a: Seq<ItemView>, b: Seq<ItemView>, name: Seq<char>)
    ensures
        named_in(a + b, name) <==> named_in(a, name) || named_in(b, name),
{
    if named_in(a + b, name) {
        let i = choose|i: int| 0 <= i < (a + b).len() && (#[trigger] (a + b)[i]).name == name;
        if i < a.len() {
            assert(a[i].name == name);
        } else {
            assert(b[i - a.len()].name == name);
        }
    }
    if named_in(a, name) {
        let i = choose|i: int| 0 <= i < a.len() && (#[trigger] a[i]).name == name;
        assert((a + b)[i].name == name);
    }
    if named_in(b, name) {
        let i = choose|i: int| 0 <= i < b.len() && (#[trigger] b[i]).name == name;
        assert((a + b)[i + a.len()].name == name);
    }
}

/// An item is among those of the first `n` subtrees exactly where it is in
/// one of these subtrees.
pub proof fn lemma_named_in_children(spaces: Seq<SpaceView>, n: int, name: Seq<char>)
    requires
        0 <= n <= spaces.len(),
    ensures
        named_in(SpaceView::all_items_of(spaces, n), name) <==> exists|c: int|
            0 <= c < n && (#[trigger] spaces[c]).has_item(name),
    decreases n,
{
    if n > 0 {
        lemma_named_in_children(spaces, n - 1, name);
        lemma_named_in_either(
            SpaceView::all_items_of(spaces, n - 1),
            spaces[n - 1].all_items(),
            name,
        );
        if named_in(SpaceView::all_items_of(spaces, n), name) {
            if spaces[n - 1].has_item(name) {
            } else {
                let c = choose|c: int| 0 <= c < n - 1 && (#[trigger] spaces[c]).has_item(name);
                assert(spaces[c].has_item(name));
            }
        }
    }
}

/// A space holds an item of that name in its own list exactly where the
/// list names it.
pub proof fn lemma_holds_item(t: SpaceView, name: Seq<char>)
    ensures
        holds_item(name)(t) <==> named_in(t.items, name),
{
    lemma_first_index(t.items, item_named(name));
    if named_in(t.items, name) {
        let i = choose|i: int| 0 <= i < t.items.len() && (#[trigger] t.items[i]).name == name;
        assert(item_named(name)(t.items[i]));
    }
}

/// Replacing one of the first `n` children changes the number of items of
/// their subtrees by the difference between the two.
pub proof fn lemma_count_of_update(spaces: Seq<SpaceView>, i: int, c: SpaceView, n: int)
    requires
        0 <= i < spaces.len(),
        0 <= n <= spaces.len(),
    ensures
        SpaceView::all_items_of(spaces.update(i, c), n).len() == SpaceView::all_items_of(
            spaces,
            n,
        ).len() + (if i < n {
            c.count_items() - spaces[i].count_items()
        } else {
            0
        }),
    decreases n,
{
    if n > 0 {
        lemma_count_of_update(spaces, i, c, n - 1);
    }
}

/// Taking one child away takes the items of its subtree away.
pub proof fn lemma_count_of_remove(spaces: Seq<SpaceView>, i: int, n: int)
    requires
        0 <= i < spaces.len(),
        0 <= n <= spaces.len() - 1,
    ensures
        SpaceView::all_items_of(spaces.remove(i), n).len() == (if n <= i {
            SpaceView::all_items_of(spaces, n).len() as int
        } else {
            SpaceView::all_items_of(spaces, n + 1).len() - spaces[i].count_items()
        }),
    decreases n,
{
    if n > 0 {
        lemma_count_of_remove(spaces, i, n - 1);
    }
}

/// Replacing a node changes the number of items of the tree by the
/// difference between the two nodes.
pub proof fn lemma_count_put(t: SpaceView, p: Seq<int>, sub: SpaceView)
    requires
        t.has_path(p),
    ensures
        t.put(p, sub).count_items() == t.count_items() - t.at(p).count_items() + sub.count_items(),
    decreases p.len(),
{
    if p.len() > 0 {
        let child = t.spaces[p[0]];
        lemma_count_put(child, p.drop_first(), sub);
        lemma_count_of_update(
            t.spaces,
            p[0],
            child.put(p.drop_first(), sub),
            t.spaces.len() as int,
        );
    }
}

/// A removal takes one item out of the tree, or none.
pub proof fn lemma_count_remove_item(t: SpaceView, name: Seq<char>)
    ensures
        t.remove_item(name).0.count_items() + (if t.remove_item(name).1 is Some {
            1int
        } else {
            0int
        }) == t.count_items(),
{
    if let Some(p) = t.first_path(holds_item(name)) {
        lemma_first_path_sound(t, holds_item(name));
        lemma_first_index(t.at(p).items, item_named(name));
        lemma_count_put(t, p, t.at(p).take_item(name).0);
    }
}

/// What a run of removals takes out of the tree is what it returns.
pub proof fn lemma_count_remove_items(t: SpaceView, names: Seq<Seq<char>>)
    ensures
        t.remove_items(names).0.count_items() + t.remove_items(names).1.len() == t.count_items(),
    decreases names.len(),
{
    if names.len() > 0 {
        lemma_count_remove_items(t, names.drop_last());
        lemma_count_remove_item(t.remove_items(names.drop_last()).0, names.last());
    }
}

/// Replacing a node by one with the same children leaves every other node
/// where it was, with the items it had.
pub proof fn lemma_put_keeps_items_elsewhere(t: SpaceView, p: Seq<int>, sub: SpaceView, q: Seq<int>)
    requires
        t.has_path(p),
        t.has_path(q),
        p != q,
        sub.spaces == t.at(p).spaces,
    ensures
        t.put(p, sub).has_path(q),
        t.put(p, sub).at(q).items == t.at(q).items,
    decreases q.len(),
{
    if p.len() > 0 && q.len() > 0 && p[0] == q[0] {
        if p.drop_first() == q.drop_first() {
            assert(p =~= seq![p[0]] + p.drop_first());
            assert(q =~= seq![q[0]] + q.drop_first());
        }
        lemma_put_keeps_items_elsewhere(t.spaces[p[0]], p.drop_first(), sub, q.drop_first());
    } else if p.len() == 0 {
        if q.len() == 0 {
            assert(p =~= q);
        }
        lemma_same_children_same_paths(t, sub, q);
    }
}

/// Below the top, two nodes with the same children hold the same nodes.
pub proof fn lemma_same_children_same_paths(a: SpaceView, b: SpaceView, q: Seq<int>)
    requires
        a.spaces == b.spaces,
        a.has_path(q),
        q.len() > 0,
    ensures
        b.has_path(q),
        b.at(q) == a.at(q),
{
}

} // verus!
