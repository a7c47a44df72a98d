use puha_lib::commands::{
    add_item, add_space, create_root, delete_item, delete_space, edit_item, edit_space, move_items,
    move_space,
};
use puha_lib::listing::{list, list_items, show_tree};
use puha_lib::{Item, NotFound, Space};

fn item(name: &str, description: &str) -> Item {
    Item::builder().name(name).description(description).build()
}

fn space(name: &str, items: Vec<Item>, spaces: Vec<Space>) -> Space {
    Space::builder().name(name).items(items).spaces(spaces).build()
}

fn item_names(space: &Space) -> Vec<String> {
    space.items().iter().map(|i| i.name().to_string()).collect()
}

fn space_names(space: &Space) -> Vec<String> {
    space.spaces().iter().map(|s| s.name().to_string()).collect()
}

fn count_items(space: &Space) -> usize {
    space.items().len() + space.spaces().iter().map(count_items).sum::<usize>()
}

fn strings(names: &[&str]) -> Vec<String> {
    names.iter().map(|n| n.to_string()).collect()
}

#[test]
fn create_root_is_an_empty_root() {
    let root = create_root("home");
    assert_eq!(root.name(), "home");
    assert!(root.root());
    assert!(root.items().is_empty());
    assert!(root.spaces().is_empty());
}

#[test]
fn find_in_a_built_tree() {
    let child = space("child", vec![item("item1", "desc")], vec![]);
    let root = Space::builder().name("root").root(true).push_space(child).build();
    let found = root.find_space("child").unwrap();
    assert_eq!(found.items().len(), 1);
    assert_eq!(found.items()[0].name(), "item1");
}

#[test]
fn move_space_between_siblings() {
    let mut root = space("root", vec![], vec![space("a", vec![], vec![]), space("b", vec![], vec![])]);
    assert_eq!(move_space(&mut root, "a", "b"), Ok(()));
    assert_eq!(space_names(&root), vec!["b"]);
    assert_eq!(space_names(&root.spaces()[0]), vec!["a"]);
}

#[test]
fn delete_merge_moves_every_item_up() {
    let g = space("g", vec![item("i2", "")], vec![]);
    let c = space("c", vec![item("i1", "")], vec![g]);
    let mut p = space("p", vec![], vec![c]);
    assert_eq!(p.delete_merge("c"), Ok(()));
    assert_eq!(item_names(&p), vec!["i1", "i2"]);
    assert!(p.spaces().is_empty());
    assert!(p.find_space("c").is_none());
    assert!(p.find_space("g").is_none());
}

#[test]
fn delete_merge_appends_after_own_items_and_keeps_other_children() {
    let g = space("g", vec![item("3", "")], vec![space("h", vec![item("4", "")], vec![])]);
    let c = space("c", vec![item("2", "")], vec![g]);
    let mut p = space(
        "p",
        vec![item("0", ""), item("1", "")],
        vec![space("before", vec![item("x", "")], vec![]), c, space("c", vec![item("y", "")], vec![])],
    );
    let total = count_items(&p);
    assert_eq!(p.delete_merge("c"), Ok(()));
    assert_eq!(item_names(&p), vec!["0", "1", "2", "3", "4"]);
    assert_eq!(space_names(&p), vec!["before", "c"]);
    assert_eq!(item_names(&p.spaces()[1]), vec!["y"]);
    assert_eq!(count_items(&p), total);
}

#[test]
fn delete_merge_looks_at_direct_children_only() {
    let mut p = space("p", vec![], vec![space("a", vec![], vec![space("deep", vec![item("i", "")], vec![])])]);
    let before = p.clone();
    assert_eq!(p.delete_merge("deep"), Err(NotFound::Space));
    assert_eq!(p, before);
}

#[test]
fn delete_space_resolves_the_parent_in_the_whole_tree() {
    let c = space("c", vec![item("i1", "")], vec![space("g", vec![item("i2", "")], vec![])]);
    let p = space("p", vec![item("i0", "")], vec![c]);
    let mut root = space("root", vec![], vec![space("other", vec![], vec![]), p]);
    assert_eq!(delete_space(&mut root, "p", "c"), Ok(()));
    let p = root.find_space("p").unwrap();
    assert_eq!(item_names(p), vec!["i0", "i1", "i2"]);
    assert!(p.spaces().is_empty());
}

#[test]
fn delete_space_errors_leave_the_tree() {
    let mut root = space("root", vec![], vec![space("p", vec![], vec![space("c", vec![], vec![])])]);
    let before = root.clone();
    assert_eq!(delete_space(&mut root, "nope", "c"), Err(NotFound::ParentSpace));
    assert_eq!(root, before);
    assert_eq!(delete_space(&mut root, "root", "c"), Err(NotFound::Space));
    assert_eq!(root, before);
    assert_eq!(delete_space(&mut root, "nope", "nope"), Err(NotFound::ParentSpace));
    assert_eq!(root, before);
}

#[test]
fn move_items_in_requested_order() {
    let from = space("from", vec![item("a", ""), item("b", ""), item("c", "")], vec![]);
    let to = space("to", vec![item("z", "")], vec![]);
    let mut root = space("root", vec![], vec![from, to]);
    assert_eq!(move_items(&mut root, "from", "to", &strings(&["c", "a"])), Ok(()));
    assert_eq!(item_names(root.find_space("from").unwrap()), vec!["b"]);
    assert_eq!(item_names(root.find_space("to").unwrap()), vec!["z", "c", "a"]);
}

#[test]
fn move_items_skips_unknown_names_and_never_duplicates() {
    let from = space("from", vec![item("a", "1"), item("a", "2")], vec![]);
    let to = space("to", vec![], vec![]);
    let mut root = space("root", vec![item("a", "outside")], vec![from, to]);
    let total = count_items(&root);
    assert_eq!(move_items(&mut root, "from", "to", &strings(&["a", "ghost", "a", "a"])), Ok(()));
    let moved: Vec<&str> = root.find_space("to").unwrap().items().iter().map(|i| i.description()).collect();
    assert_eq!(moved, vec!["1", "2"]);
    assert!(root.find_space("from").unwrap().items().is_empty());
    assert_eq!(item_names(&root), vec!["a"]);
    assert_eq!(count_items(&root), total);
}

#[test]
fn move_items_keeps_source_plus_destination_length() {
    let from = space("from", vec![item("a", ""), item("b", ""), item("c", "")], vec![]);
    let to = space("to", vec![item("z", "")], vec![]);
    let mut root = space("root", vec![], vec![from, to]);
    let before = root.find_space("from").unwrap().items().len() + root.find_space("to").unwrap().items().len();
    assert_eq!(move_items(&mut root, "from", "to", &strings(&["b", "missing", "a"])), Ok(()));
    let after = root.find_space("from").unwrap().items().len() + root.find_space("to").unwrap().items().len();
    assert_eq!(before, 4);
    assert_eq!(after, 4);
}

#[test]
fn move_items_reaches_below_the_source() {
    let below = space("below", vec![item("i", "")], vec![]);
    let from = space("from", vec![], vec![below]);
    let to = space("to", vec![], vec![]);
    let mut root = space("root", vec![], vec![from, to]);
    let total = count_items(&root);
    assert_eq!(move_items(&mut root, "from", "to", &strings(&["i"])), Ok(()));
    assert!(root.find_space("below").unwrap().items().is_empty());
    assert_eq!(item_names(root.find_space("to").unwrap()), vec!["i"]);
    assert_eq!(root.find_space("from").unwrap().items().len() + root.find_space("to").unwrap().items().len(), 1);
    assert_eq!(count_items(&root), total);
}

#[test]
fn move_items_stays_inside_the_source_subtree() {
    let from = space("from", vec![], vec![]);
    let to = space("to", vec![], vec![]);
    let mut root = space("root", vec![item("i", "")], vec![from, to]);
    let before = root.clone();
    assert_eq!(move_items(&mut root, "from", "to", &strings(&["i"])), Ok(()));
    assert_eq!(root, before);
}

#[test]
fn move_items_to_the_source_itself_moves_to_the_end() {
    let mut root = space("s", vec![item("a", ""), item("b", ""), item("c", "")], vec![]);
    assert_eq!(move_items(&mut root, "s", "s", &strings(&["a"])), Ok(()));
    assert_eq!(item_names(&root), vec!["b", "c", "a"]);
}

#[test]
fn move_items_errors_leave_the_tree() {
    let mut root = space("root", vec![], vec![space("from", vec![item("a", "")], vec![]), space("to", vec![], vec![])]);
    let before = root.clone();
    assert_eq!(move_items(&mut root, "nope", "to", &strings(&["a"])), Err(NotFound::SourceSpace));
    assert_eq!(root, before);
    assert_eq!(move_items(&mut root, "from", "nope", &strings(&["a"])), Err(NotFound::DestinationSpace));
    assert_eq!(root, before);
    assert_eq!(move_items(&mut root, "nope", "nope", &strings(&["a"])), Err(NotFound::SourceSpace));
    assert_eq!(root, before);
}

#[test]
fn move_space_carries_the_subtree() {
    let a = space("a", vec![item("i", "")], vec![space("a1", vec![item("j", "")], vec![])]);
    let b = space("b", vec![], vec![space("b1", vec![], vec![])]);
    let mut root = space("root", vec![], vec![a.clone(), b]);
    assert_eq!(move_space(&mut root, "a", "b1"), Ok(()));
    assert_eq!(space_names(&root), vec!["b"]);
    let b1 = root.find_space("b1").unwrap();
    assert_eq!(b1.spaces().to_vec(), vec![a]);
}

#[test]
fn move_space_appends_after_the_destination_children() {
    let mut root = space(
        "root",
        vec![],
        vec![space("a", vec![], vec![]), space("b", vec![], vec![space("c", vec![], vec![])])],
    );
    assert_eq!(move_space(&mut root, "a", "b"), Ok(()));
    assert_eq!(space_names(&root.spaces()[0]), vec!["c", "a"]);
}

#[test]
fn move_space_errors_leave_the_tree() {
    let mut root = space("root", vec![], vec![space("a", vec![], vec![space("inner", vec![], vec![])]), space("b", vec![], vec![])]);
    let before = root.clone();
    assert_eq!(move_space(&mut root, "nope", "b"), Err(NotFound::Space));
    assert_eq!(root, before);
    assert_eq!(move_space(&mut root, "a", "nope"), Err(NotFound::DestinationSpace));
    assert_eq!(root, before);
    assert_eq!(move_space(&mut root, "root", "b"), Err(NotFound::Space));
    assert_eq!(root, before);
}

#[test]
fn move_space_into_itself_fails_and_leaves_the_tree() {
    let mut root = space("root", vec![], vec![space("a", vec![], vec![space("inner", vec![], vec![])]), space("b", vec![], vec![])]);
    let before = root.clone();
    assert_eq!(move_space(&mut root, "a", "a"), Err(NotFound::DestinationSpace));
    assert_eq!(root, before);
    assert_eq!(move_space(&mut root, "a", "inner"), Err(NotFound::DestinationSpace));
    assert_eq!(root, before);
}

#[test]
fn move_space_finds_the_destination_outside_the_moved_subtree() {
    let a = space("a", vec![], vec![space("t", vec![item("inside", "")], vec![])]);
    let mut root = space("root", vec![], vec![a, space("t", vec![item("outside", "")], vec![])]);
    assert_eq!(move_space(&mut root, "a", "t"), Ok(()));
    assert_eq!(space_names(&root), vec!["t"]);
    assert_eq!(item_names(&root.spaces()[0]), vec!["outside"]);
    assert_eq!(space_names(&root.spaces()[0]), vec!["a"]);
}

#[test]
fn move_space_to_its_own_parent_moves_it_last() {
    let mut root = space("root", vec![], vec![space("a", vec![], vec![]), space("b", vec![], vec![])]);
    assert_eq!(move_space(&mut root, "a", "root"), Ok(()));
    assert_eq!(space_names(&root), vec!["b", "a"]);
}

#[test]
fn add_item_and_add_space_to_a_named_space() {
    let mut root = space("root", vec![], vec![space("a", vec![item("x", "")], vec![])]);
    assert_eq!(add_item(&mut root, "a", "y", "why"), Ok(()));
    let a = root.find_space("a").unwrap();
    assert_eq!(item_names(a), vec!["x", "y"]);
    assert_eq!(a.items()[1].description(), "why");
    assert_eq!(add_space(&mut root, "a", "new"), Ok(()));
    let new = root.find_space("new").unwrap();
    assert!(new.items().is_empty() && new.spaces().is_empty() && !new.root());
    assert_eq!(space_names(root.find_space("a").unwrap()), vec!["new"]);
    let before = root.clone();
    assert_eq!(add_item(&mut root, "nope", "y", ""), Err(NotFound::Space));
    assert_eq!(add_space(&mut root, "nope", "z"), Err(NotFound::Space));
    assert_eq!(root, before);
}

#[test]
fn edit_space_renames_the_first_match() {
    let mut root = space("root", vec![], vec![space("a", vec![item("1", "")], vec![]), space("a", vec![], vec![])]);
    assert_eq!(edit_space(&mut root, "a", "b"), Ok(()));
    assert_eq!(space_names(&root), vec!["b", "a"]);
    assert_eq!(item_names(&root.spaces()[0]), vec!["1"]);
    assert_eq!(edit_space(&mut root, "zzz", "b"), Err(NotFound::Space));
}

#[test]
fn edit_item_changes_what_is_given() {
    let mut root = space("root", vec![], vec![space("a", vec![item("i", "d"), item("i", "second")], vec![])]);
    assert_eq!(edit_item(&mut root, "a", "i", None, Some("e")), Ok(()));
    assert_eq!(root.spaces()[0].items()[0], item("i", "e"));
    assert_eq!(edit_item(&mut root, "a", "i", Some("j"), None), Ok(()));
    assert_eq!(root.spaces()[0].items()[0], item("j", "e"));
    assert_eq!(edit_item(&mut root, "a", "j", Some("k"), Some("f")), Ok(()));
    assert_eq!(root.spaces()[0].items()[0], item("k", "f"));
    assert_eq!(root.spaces()[0].items()[1], item("i", "second"));
    let before = root.clone();
    assert_eq!(edit_item(&mut root, "a", "k", None, None), Ok(()));
    assert_eq!(root, before);
    assert_eq!(edit_item(&mut root, "a", "gone", Some("x"), None), Err(NotFound::Item));
    assert_eq!(edit_item(&mut root, "nope", "k", Some("x"), None), Err(NotFound::Space));
    assert_eq!(root, before);
}

#[test]
fn delete_item_is_local_to_the_named_space() {
    let a = space("a", vec![item("i", "")], vec![space("b", vec![item("deep", "")], vec![])]);
    let mut root = space("root", vec![], vec![a]);
    let before = root.clone();
    assert_eq!(delete_item(&mut root, "a", "deep"), Err(NotFound::Item));
    assert_eq!(delete_item(&mut root, "nope", "i"), Err(NotFound::Space));
    assert_eq!(root, before);
    assert_eq!(delete_item(&mut root, "a", "i"), Ok(()));
    assert!(root.find_space("a").unwrap().items().is_empty());
    assert_eq!(item_names(root.find_space("b").unwrap()), vec!["deep"]);
}

#[test]
fn show_tree_indents_by_depth() {
    let g = space("g", vec![item("i3", "")], vec![]);
    let c = space("c", vec![item("i2", "")], vec![g]);
    let root = space("root", vec![item("i0", ""), item("i1", "")], vec![c, space("d", vec![], vec![])]);
    assert_eq!(
        show_tree(&root, None),
        Ok(strings(&["root", "  - i0", "  - i1", "  c", "    - i2", "    g", "      - i3", "  d"]))
    );
    assert_eq!(show_tree(&root, Some("c")), Ok(strings(&["c", "  - i2", "  g", "    - i3"])));
    assert_eq!(show_tree(&root, Some("d")), Ok(strings(&["d"])));
    assert_eq!(show_tree(&root, Some("nope")), Err(NotFound::Space));
}

#[test]
fn list_items_and_list_show_one_level() {
    let c = space("c", vec![item("deep", "")], vec![]);
    let a = space("a", vec![item("i", ""), item("j", "")], vec![c, space("d", vec![], vec![])]);
    let root = space("root", vec![], vec![a]);
    assert_eq!(list_items(&root, "a"), Ok(strings(&["i", "j"])));
    assert_eq!(list_items(&root, "root"), Ok(Vec::new()));
    assert_eq!(list_items(&root, "nope"), Err(NotFound::Space));
    assert_eq!(list(&root, "a"), Ok(strings(&["item: i", "item: j", "space: c", "space: d"])));
    assert_eq!(list(&root, "root"), Ok(strings(&["space: a"])));
    assert_eq!(list(&root, "nope"), Err(NotFound::Space));
}
