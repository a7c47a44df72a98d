//! The lines that the listing commands show. Nothing is printed here: each
//! function returns the lines, in order.

use crate::error::NotFound;
use crate::item::item_views;
use crate::model::{ItemView, SpaceView};
use crate::space::{space_views, Space};
use crate::text::texts;
use vstd::prelude::*;
use vstd::string::StringExecFns;

verus! {

/// The names of a sequence of items, in order.
pub open spec fn item_names(items: Seq<ItemView>) -> Seq<Seq<char>> {
    items.map_values(|i: ItemView| i.name)
}

/// The names of a sequence of spaces, in order.
pub open spec fn space_names(spaces: Seq<SpaceView>) -> Seq<Seq<char>> {
    spaces.map_values(|s: SpaceView| s.name)
}

/// Each name with `label` in front of it.
pub open spec fn labelled(label: Seq<char>, names: Seq<Seq<char>>) -> Seq<Seq<char>> {
    names.map_values(|n: Seq<char>| label + n)
}

/// The lines that show a tree: the space's name after the margin `pad`,
/// one line per item marked with a dash, then each child's tree with the
/// margin two blanks wider.
pub open spec fn tree_lines(t: SpaceView, pad: Seq<char>) -> Seq<Seq<char>>
    decreases t, 0nat,
{
    seq![pad + t.name] + labelled(pad + "  - "@, item_names(t.items)) + forest_lines(
        t.spaces,
        t.spaces.len() as int,
        pad + "  "@,
    )
}

/// The lines that show the trees of the first `n` of `spaces`.
pub open spec fn forest_lines(spaces: Seq<SpaceView>, n: int, pad: Seq<char>) -> Seq<Seq<char>>
    decreases spaces, n,
{
    if 0 < n <= spaces.len() {
        forest_lines(spaces, n - 1, pad) + tree_lines(spaces[n - 1], pad)
    } else {
        Seq::empty()
    }
}

/// The lines that show one level of a space: its items, then its direct
/// children.
pub open spec fn level_lines(t: SpaceView) -> Seq<Seq<char>> {
    labelled("item: "@, item_names(t.items)) + labelled("space: "@, space_names(t.spaces))
}

/// Appends `label` followed by `name` to `out` as one line.
fn push_line(out: &mut Vec<String>, label: &str, name: &str)
    ensures
        texts(final(out)@) == texts(old(out)@).push(label@ + name@),
{
    let mut line = label.to_owned();
    line.append(name);
    out.push(line);
    assert(texts(out@) =~= texts(old(out)@).push(label@ + name@));
}

/// Appends one line per item to `out`: `label` followed by the item's name.
fn push_item_lines(out: &mut Vec<String>, label: &str, space: &Space)
    ensures
        texts(final(out)@) == texts(old(out)@) + labelled(label@, item_names(space@.items)),
{
    let items = space.items();
    let mut k: usize = 0;
    while k < items.len()
        invariant
            k <= items.len(),
            item_views(items@) == space@.items,
            texts(out@) == texts(old(out)@) + labelled(label@, item_names(space@.items)).take(
                k as int,
            ),
        decreases items.len() - k,
    {
        assert(item_views(items@)[k as int] == items@[k as int]@);
        push_line(out, label, items[k].name());
        assert(texts(out@) =~= texts(old(out)@) + labelled(label@, item_names(space@.items)).take(
            k + 1,
        ));
        k += 1;
    }
    assert(labelled(label@, item_names(space@.items)).take(k as int) =~= labelled(
        label@,
        item_names(space@.items),
    ));
}

/// Appends the lines of the tree below `space` to `out`.
fn push_tree_lines(out: &mut Vec<String>, pad: &str, space: &Space)
    ensures
        texts(final(out)@) == texts(old(out)@) + tree_lines(space@, pad@),
    decreases space@,
{
    push_line(out, pad, space.name());
    let mut dash = pad.to_owned();
    dash.append("  - ");
    push_item_lines(out, dash.as_str(), space);
    let mut wider = pad.to_owned();
    wider.append("  ");
    let spaces = space.spaces();
    let mut i: usize = 0;
    while i < spaces.len()
        invariant
            i <= spaces.len(),
            space_views(spaces@) == space@.spaces,
            wider@ == pad@ + "  "@,
            texts(out@) == texts(old(out)@) + seq![pad@ + space@.name] + labelled(
                pad@ + "  - "@,
                item_names(space@.items),
            ) + forest_lines(space@.spaces, i as int, wider@),
        decreases spaces.len() - i,
    {
        assert(space_views(spaces@)[i as int] == spaces@[i as int]@);
        push_tree_lines(out, wider.as_str(), &spaces[i]);
        assert(texts(out@) =~= texts(old(out)@) + seq![pad@ + space@.name] + labelled(
            pad@ + "  - "@,
            item_names(space@.items),
        ) + forest_lines(space@.spaces, i + 1, wider@));
        i += 1;
    }
    assert(texts(out@) =~= texts(old(out)@) + tree_lines(space@, pad@));
}

/// The lines that show the whole tree, or the tree below the first space
/// called `name` where a name is given.
pub fn show_tree(root: &Space, name: Option<&str>) -> (res: Result<Vec<String>, NotFound>)
    ensures
        match name {
            None => res is Ok && texts(res.unwrap()@) == tree_lines(root@, Seq::empty()),
            Some(n) => match root@.find(n@) {
                Some(t) => res is Ok && texts(res.unwrap()@) == tree_lines(t, Seq::empty()),
                None => res == Err::<Vec<String>, NotFound>(NotFound::Space),
            },
        },
{
    let target = match name {
        None => root,
        Some(n) => match root.find_space(n) {
            Some(t) => t,
            None => {
                return Err(NotFound::Space);
            },
        },
    };
    let mut out: Vec<String> = Vec::new();
    let pad = String::new();
    push_tree_lines(&mut out, pad.as_str(), target);
    assert(texts(out@) =~= tree_lines(target@, Seq::empty()));
    Ok(out)
}

/// The names of the own items of the first space called `space`.
pub fn list_items(root: &Space, space: &str) -> (res: Result<Vec<String>, NotFound>)
    ensures
        match root@.find(space@) {
            Some(t) => res is Ok && texts(res.unwrap()@) == item_names(t.items),
            None => res == Err::<Vec<String>, NotFound>(NotFound::Space),
        },
{
    match root.find_space(space) {
        Some(target) => {
            let mut out: Vec<String> = Vec::new();
            let label = String::new();
            push_item_lines(&mut out, label.as_str(), target);
            assert(texts(out@) =~= item_names(target@.items)) by {
                assert forall|k: int| 0 <= k < target@.items.len() implies Seq::<char>::empty()
                    + #[trigger] item_names(target@.items)[k] == item_names(target@.items)[k] by {
                    assert(Seq::<char>::empty() + item_names(target@.items)[k] =~= item_names(
                        target@.items,
                    )[k]);
                }
            }
            Ok(out)
        },
        None => Err(NotFound::Space),
    }
}

/// One level of the first space called `space`: a line per own item, then
/// a line per direct child.
pub fn list(root: &Space, space: &str) -> (res: Result<Vec<String>, NotFound>)
    ensures
        match root@.find(space@) {
            Some(t) => res is Ok && texts(res.unwrap()@) == level_lines(t),
            None => res == Err::<Vec<String>, NotFound>(NotFound::Space),
        },
{
    match root.find_space(space) {
        Some(target) => {
            let mut out: Vec<String> = Vec::new();
            push_item_lines(&mut out, "item: ", target);
            let spaces = target.spaces();
            let mut i: usize = 0;
            while i < spaces.len()
                invariant
                    i <= spaces.len(),
                    space_views(spaces@) == target@.spaces,
                    texts(out@) == labelled("item: "@, item_names(target@.items)) + labelled(
                        "space: "@,
                        space_names(target@.spaces),
                    ).take(i as int),
                decreases spaces.len() - i,
            {
                assert(space_views(spaces@)[i as int] == spaces@[i as int]@);
                push_line(&mut out, "space: ", spaces[i].name());
                assert(texts(out@) =~= labelled("item: "@, item_names(target@.items)) + labelled(
                    "space: "@,
                    space_names(target@.spaces),
                ).take(i + 1));
                i += 1;
            }
            assert(texts(out@) =~= level_lines(target@));
            Ok(out)
        },
        None => Err(NotFound::Space),
    }
}

} // verus!
