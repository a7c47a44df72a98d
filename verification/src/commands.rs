//! The operations that a command performs on a loaded tree: each resolves
//! the spaces it names from the top of the tree, then applies one change,
//! or fails and leaves the tree as it was.

use crate::error::NotFound;
use crate::item::Item;
use crate::lemmas::{
    lemma_first_path_sound, lemma_put_same, lemma_remove_items_skeleton,
    lemma_same_skeleton_search, lemma_skeleton_put,
};
use crate::model::{
    first_index, holds_space, item_named, space_named, ItemView, SpaceView,
};
use crate::search::{path_of, Probe};
use crate::space::{empty_space, Space};
use crate::text::texts;
use vstd::prelude::*;

verus! {

/// What deleting the direct child `space` of the first space called
/// `parent` makes of a tree: the child's items, and those of everything
/// below it, end up in the parent.
pub open spec fn deleted_space(t: SpaceView, parent: Seq<char>, space: Seq<char>) -> Result<
    SpaceView,
    NotFound,
> {
    match t.first_path(space_named(parent)) {
        None => Err(NotFound::ParentSpace),
        Some(p) => match t.at(p).merge_child(space) {
            None => Err(NotFound::Space),
            Some(merged) => Ok(t.put(p, merged)),
        },
    }
}

/// A new tree: one space called `name`, marked as root, with nothing in it.
pub fn create_root(name: &str) -> (res: Space)
    ensures
        res@ == (SpaceView { name: name@, root: true, ..empty_space() }),
{
    Space::builder().name(name).root(true).build()
}

/// Appends a new item to the first space called `space`.
pub fn add_item(root: &mut Space, space: &str, item: &str, description: &str) -> (res: Result<
    (),
    NotFound,
>)
    ensures
        match old(root)@.first_path(space_named(space@)) {
            Some(p) => res is Ok && final(root)@ == old(root)@.put(
                p,
                SpaceView {
                    items: old(root)@.at(p).items.push(
                        ItemView { name: item@, description: description@ },
                    ),
                    ..old(root)@.at(p)
                },
            ),
            None => res == Err::<(), NotFound>(NotFound::Space) && final(root)@ == old(root)@,
        },
{
    match root.find_space_mut(space) {
        Some(target) => {
            target.add_item(Item::builder().name(item).description(description).build());
            Ok(())
        },
        None => Err(NotFound::Space),
    }
}

/// Appends a new, empty space called `child` to the first space called
/// `parent`.
pub fn add_space(root: &mut Space, parent: &str, child: &str) -> (res: Result<(), NotFound>)
    ensures
        match old(root)@.first_path(space_named(parent@)) {
            Some(p) => res is Ok && final(root)@ == old(root)@.put(
                p,
                SpaceView {
                    spaces: old(root)@.at(p).spaces.push(
                        SpaceView { name: child@, ..empty_space() },
                    ),
                    ..old(root)@.at(p)
                },
            ),
            None => res == Err::<(), NotFound>(NotFound::Space) && final(root)@ == old(root)@,
        },
{
    match root.find_space_mut(parent) {
        Some(target) => {
            target.add_space(Space::builder().name(child).build());
            Ok(())
        },
        None => Err(NotFound::Space),
    }
}

/// Renames the first space called `space`.
pub fn edit_space(root: &mut Space, space: &str, new_name: &str) -> (res: Result<(), NotFound>)
    ensures
        match old(root)@.first_path(space_named(space@)) {
            Some(p) => res is Ok && final(root)@ == old(root)@.put(
                p,
                SpaceView { name: new_name@, ..old(root)@.at(p) },
            ),
            None => res == Err::<(), NotFound>(NotFound::Space) && final(root)@ == old(root)@,
        },
{
    match root.find_space_mut(space) {
        Some(target) => {
            target.set_name(new_name);
            Ok(())
        },
        None => Err(NotFound::Space),
    }
}

/// What [`edit_item`] makes of an item: each of the two fields is replaced
/// where a new value is given.
pub open spec fn edited_item(
    item: ItemView,
    name: Option<Seq<char>>,
    description: Option<Seq<char>>,
) -> ItemView {
    ItemView {
        name: match name {
            Some(n) => n,
            None => item.name,
        },
        description: match description {
            Some(d) => d,
            None => item.description,
        },
    }
}

/// The characters of an optional string.
pub open spec fn opt_text(s: Option<&str>) -> Option<Seq<char>> {
    match s {
        Some(t) => Some(t@),
        None => None,
    }
}

/// Replaces the name, the description or both of the first item called
/// `item` among the own items of the first space called `space`.
pub fn edit_item(
    root: &mut Space,
    space: &str,
    item: &str,
    name: Option<&str>,
    description: Option<&str>,
) -> (res: Result<(), NotFound>)
    ensures
        match old(root)@.first_path(space_named(space@)) {
            Some(p) => match first_index(old(root)@.at(p).items, item_named(item@)) {
                Some(i) => res is Ok && final(root)@ == old(root)@.put(
                    p,
                    SpaceView {
                        items: old(root)@.at(p).items.update(
                            i,
                            edited_item(
                                old(root)@.at(p).items[i],
                                opt_text(name),
                                opt_text(description),
                            ),
                        ),
                        ..old(root)@.at(p)
                    },
                ),
                None => res == Err::<(), NotFound>(NotFound::Item) && final(root)@ == old(root)@,
            },
            None => res == Err::<(), NotFound>(NotFound::Space) && final(root)@ == old(root)@,
        },
{
    proof {
        lemma_first_path_sound(root@, space_named(space@));
    }
    let ghost start = root@;
    match root.find_space_mut(space) {
        Some(target) => match target.find_item_mut(item) {
            Some(found) => {
                if let Some(n) = name {
                    found.set_name(n);
                }
                if let Some(d) = description {
                    found.set_description(d);
                }
                Ok(())
            },
            None => {
                proof {
                    lemma_put_same(start, start.first_path(space_named(space@)).unwrap());
                }
                Err(NotFound::Item)
            },
        },
        None => Err(NotFound::Space),
    }
}

/// Removes the first item called `item` from the own items of the first
/// space called `space`.
pub fn delete_item(root: &mut Space, space: &str, item: &str) -> (res: Result<(), NotFound>)
    ensures
        match old(root)@.first_path(space_named(space@)) {
            Some(p) => match old(root)@.at(p).take_item(item@) {
                (rest, Some(_)) => res is Ok && final(root)@ == old(root)@.put(p, rest),
                (_, None) => res == Err::<(), NotFound>(NotFound::Item) && final(root)@ == old(
                    root,
                )@,
            },
            None => res == Err::<(), NotFound>(NotFound::Space) && final(root)@ == old(root)@,
        },
{
    proof {
        lemma_first_path_sound(root@, space_named(space@));
    }
    let ghost start = root@;
    match root.find_space_mut(space) {
        Some(target) => match target.remove_item_local(item) {
            Some(_) => Ok(()),
            None => {
                proof {
                    lemma_put_same(start, start.first_path(space_named(space@)).unwrap());
                }
                Err(NotFound::Item)
            },
        },
        None => Err(NotFound::Space),
    }
}

/// Deletes the direct child called `space` of the first space called
/// `parent`, and appends every item of the deleted subtree, in depth-first
/// pre-order, to the parent's own items. Both lookups are made before
/// anything is detached.
pub fn delete_space(root: &mut Space, parent: &str, space: &str) -> (res: Result<(), NotFound>)
    ensures
        match deleted_space(old(root)@, parent@, space@) {
            Ok(t) => res is Ok && final(root)@ == t,
            Err(e) => res == Err::<(), NotFound>(e) && final(root)@ == old(root)@,
        },
{
    proof {
        lemma_first_path_sound(root@, space_named(parent@));
    }
    let ghost start = root@;
    match root.find_space_mut(parent) {
        Some(target) => {
            let res = target.delete_merge(space);
            proof {
                if res is Err {
                    lemma_put_same(start, start.first_path(space_named(parent@)).unwrap());
                }
            }
            res
        },
        None => Err(NotFound::ParentSpace),
    }
}

/// What moving items makes of a tree. The source is the first space called
/// `from`; one item for each of `names` is taken out of the source's
/// subtree, as [`SpaceView::remove_items`] says; the destination is the
/// first space called `to`; the items that came out are appended to the
/// destination's own items in the order of their names.
pub open spec fn moved_items(
    t: SpaceView,
    from: Seq<char>,
    to: Seq<char>,
    names: Seq<Seq<char>>,
) -> Result<SpaceView, NotFound> {
    match t.first_path(space_named(from)) {
        None => Err(NotFound::SourceSpace),
        Some(sp) => {
            let (source, got) = t.at(sp).remove_items(names);
            let lighter = t.put(sp, source);
            match lighter.first_path(space_named(to)) {
                None => Err(NotFound::DestinationSpace),
                Some(dp) => Ok(
                    lighter.put(
                        dp,
                        SpaceView { items: lighter.at(dp).items + got, ..lighter.at(dp) },
                    ),
                ),
            }
        },
    }
}

/// What moving a space makes of a tree. The space is detached as
/// [`SpaceView::remove_space`] says; the destination is the first space
/// called `to` in what is left; the detached subtree becomes the
/// destination's last child.
pub open spec fn moved_space(t: SpaceView, space: Seq<char>, to: Seq<char>) -> Result<
    SpaceView,
    NotFound,
> {
    match t.remove_space(space) {
        (_, None) => Err(NotFound::Space),
        (left, Some(moved)) => match left.first_path(space_named(to)) {
            None => Err(NotFound::DestinationSpace),
            Some(dp) => Ok(
                left.put(dp, SpaceView { spaces: left.at(dp).spaces.push(moved), ..left.at(dp) }),
            ),
        },
    }
}

/// Moves items from the subtree of the first space called `from` to the
/// own items of the first space called `to`. Names that find no item are
/// passed over. Both spaces are resolved before any item is taken out, so
/// that a failure leaves the tree as it was.
pub fn move_items(root: &mut Space, from: &str, to: &str, names: &Vec<String>) -> (res: Result<
    (),
    NotFound,
>)
    ensures
        match moved_items(old(root)@, from@, to@, texts(names@)) {
            Ok(t) => res is Ok && final(root)@ == t,
            Err(e) => res == Err::<(), NotFound>(e) && final(root)@ == old(root)@,
        },
{
    let ghost start = root@;
    let mut source_path: Vec<usize> = Vec::new();
    if !root.trace(Probe::Named, from, &mut source_path) {
        return Err(NotFound::SourceSpace);
    }
    let ghost sp = path_of(source_path@);
    proof {
        assert(sp =~= start.first_path(space_named(from@)).unwrap());
        assert(source_path@.skip(0) =~= source_path@);
        lemma_first_path_sound(start, space_named(from@));
        lemma_remove_items_skeleton(start.at(sp), texts(names@));
        lemma_skeleton_put(start, sp, start.at(sp).remove_items(texts(names@)).0);
        lemma_same_skeleton_search(
            start.put(sp, start.at(sp).remove_items(texts(names@)).0),
            start,
            to@,
        );
    }
    let mut target_path: Vec<usize> = Vec::new();
    if !root.trace(Probe::Named, to, &mut target_path) {
        return Err(NotFound::DestinationSpace);
    }
    let removed = root.at_mut(&source_path, 0).remove_items(names);
    proof {
        assert(path_of(target_path@) =~= start.first_path(space_named(to@)).unwrap());
        assert(target_path@.skip(0) =~= target_path@);
        lemma_first_path_sound(root@, space_named(to@));
    }
    root.at_mut(&target_path, 0).add_items(removed);
    Ok(())
}

/// Moves the first space called `space`, with its whole subtree, to the
/// end of the children of the first space called `to`. The space is looked
/// for as [`Space::remove_space`] does, and the destination in what is
/// left without it, so a space cannot be moved into itself. Both are
/// resolved before anything is detached, so that a failure leaves the tree
/// as it was.
pub fn move_space(root: &mut Space, space: &str, to: &str) -> (res: Result<(), NotFound>)
    ensures
        match moved_space(old(root)@, space@, to@) {
            Ok(t) => res is Ok && final(root)@ == t,
            Err(e) => res == Err::<(), NotFound>(e) && final(root)@ == old(root)@,
        },
{
    let ghost start = root@;
    proof {
        lemma_first_path_sound(start, holds_space(space@));
    }
    let mut parent_path: Vec<usize> = Vec::new();
    if !root.trace(Probe::HoldsSpace, space, &mut parent_path) {
        return Err(NotFound::Space);
    }
    proof {
        assert(path_of(parent_path@) =~= start.first_path(holds_space(space@)).unwrap());
        assert(parent_path@.skip(0) =~= parent_path@);
    }
    if !root.found_without(to, &parent_path, 0, space) {
        return Err(NotFound::DestinationSpace);
    }
    let moved = root.at_mut(&parent_path, 0).remove_direct_space(space).unwrap();
    root.find_space_mut(to).unwrap().add_space(moved);
    Ok(())
}

} // verus!
