use puha_lib::{greet, Item, ItemBuilder, NotFound, Space, SpaceBuilder};

#[test]
fn greet_returns_expected() {
    assert_eq!(greet(), "Hello from puha-lib!");
}

#[test]
fn build_and_find_space() {
    let item = Item::builder().name("item1").description("desc").build();

    let child = Space::builder().name("child").push_item(item.clone()).build();

    let root = Space::builder()
        .name("root")
        .root(true)
        .push_space(child.clone())
        .build();

    let found = root.find_space("child").expect("space not found");
    assert_eq!(found.name(), "child");
    assert_eq!(found.items().len(), 1);
    assert_eq!(found.items()[0], item);
}

#[test]
fn item_builder_defaults_are_empty() {
    let item = ItemBuilder::new().build();
    assert_eq!(item.name(), "");
    assert_eq!(item.description(), "");
    let other = ItemBuilder::default().build();
    assert_eq!(item, other);
}

#[test]
fn item_builder_keeps_the_last_value() {
    let item = Item::builder().name("a").name("b").description("x").description("y").build();
    assert_eq!(item.name(), "b");
    assert_eq!(item.description(), "y");
}

#[test]
fn item_setters_replace_one_field() {
    let mut item = Item::builder().name("n").description("d").build();
    item.set_name("m");
    assert_eq!(item.name(), "m");
    assert_eq!(item.description(), "d");
    item.set_description("e");
    assert_eq!(item.name(), "m");
    assert_eq!(item.description(), "e");
}

#[test]
fn item_clone_is_equal() {
    let item = Item::builder().name("n").description("d").build();
    let copy = item.clone();
    assert_eq!(copy, item);
    assert_eq!(copy.name(), "n");
    assert_eq!(copy.description(), "d");
}

#[test]
fn space_builder_defaults_are_empty() {
    let space = SpaceBuilder::new().build();
    assert_eq!(space.name(), "");
    assert!(space.items().is_empty());
    assert!(space.spaces().is_empty());
    assert!(!space.root());
    assert_eq!(space, SpaceBuilder::default().build());
    assert_eq!(space, Space::builder().build());
}

#[test]
fn space_builder_replaces_and_appends() {
    let a = Item::builder().name("a").build();
    let b = Item::builder().name("b").build();
    let c = Item::builder().name("c").build();
    let s1 = Space::builder().name("s1").build();
    let s2 = Space::builder().name("s2").build();
    let space = Space::builder()
        .name("top")
        .root(true)
        .push_item(c.clone())
        .items(vec![a.clone(), b.clone()])
        .push_item(c.clone())
        .push_space(s2.clone())
        .spaces(vec![s1.clone()])
        .push_space(s2.clone())
        .build();
    assert_eq!(space.name(), "top");
    assert!(space.root());
    assert_eq!(space.items().to_vec(), vec![a, b, c]);
    assert_eq!(space.spaces().to_vec(), vec![s1, s2]);
}

#[test]
fn space_setters_replace_one_field() {
    let mut space = Space::builder().name("s").push_item(Item::builder().name("i").build()).build();
    space.set_name("t");
    assert_eq!(space.name(), "t");
    assert_eq!(space.items().len(), 1);
    assert!(!space.root());
    space.set_root(true);
    assert!(space.root());
    assert_eq!(space.name(), "t");
    space.set_root(false);
    assert!(!space.root());
}

#[test]
fn add_item_and_add_space_append_in_order() {
    let mut space = Space::builder().name("s").build();
    space.add_item(Item::builder().name("one").build());
    space.add_item(Item::builder().name("two").build());
    space.add_item(Item::builder().name("one").build());
    let names: Vec<&str> = space.items().iter().map(|i| i.name()).collect();
    assert_eq!(names, vec!["one", "two", "one"]);
    space.add_space(Space::builder().name("x").build());
    space.add_space(Space::builder().name("y").build());
    space.add_space(Space::builder().name("x").build());
    let names: Vec<&str> = space.spaces().iter().map(|s| s.name()).collect();
    assert_eq!(names, vec!["x", "y", "x"]);
}

#[test]
fn add_items_appends_all_in_order() {
    let mut space = Space::builder().name("s").push_item(Item::builder().name("a").build()).build();
    space.add_items(vec![Item::builder().name("b").build(), Item::builder().name("c").build()]);
    let names: Vec<&str> = space.items().iter().map(|i| i.name()).collect();
    assert_eq!(names, vec!["a", "b", "c"]);
    space.add_items(Vec::new());
    assert_eq!(space.items().len(), 3);
}

#[test]
fn space_clone_is_deep_and_equal() {
    let leaf = Space::builder().name("leaf").push_item(Item::builder().name("i").description("d").build()).build();
    let mid = Space::builder().name("mid").push_space(leaf).build();
    let top = Space::builder().name("top").root(true).push_space(mid).build();
    let mut copy = top.clone();
    assert_eq!(copy, top);
    copy.find_space_mut("leaf").unwrap().set_name("changed");
    assert_ne!(copy, top);
    assert!(top.find_space("leaf").is_some());
    assert!(top.find_space("changed").is_none());
}

#[test]
fn not_found_messages() {
    assert_eq!(NotFound::Space.message(), "space not found");
    assert_eq!(NotFound::SourceSpace.message(), "source space not found");
    assert_eq!(NotFound::DestinationSpace.message(), "destination space not found");
    assert_eq!(NotFound::ParentSpace.message(), "parent space not found");
    assert_eq!(NotFound::Item.message(), "item not found");
}

#[test]
fn items_are_equal_field_for_field() {
    let a = Item::builder().name("n").description("d").build();
    assert!(a == Item::builder().name("n").description("d").build());
    assert!(a != Item::builder().name("m").description("d").build());
    assert!(a != Item::builder().name("n").description("e").build());
    assert!(a != Item::builder().name("d").description("n").build());
}

#[test]
fn spaces_are_equal_field_for_field() {
    let make = || {
        Space::builder()
            .name("s")
            .root(true)
            .push_item(Item::builder().name("i").description("d").build())
            .push_space(Space::builder().name("c").push_item(Item::builder().name("j").build()).build())
            .build()
    };
    let s = make();
    assert!(s == make());
    let mut other = make();
    other.set_name("t");
    assert!(s != other);
    let mut other = make();
    other.set_root(false);
    assert!(s != other);
    let mut other = make();
    other.add_item(Item::builder().name("i").description("d").build());
    assert!(s != other);
    let mut other = make();
    other.find_item_mut("i").unwrap().set_description("x");
    assert!(s != other);
    let mut other = make();
    other.add_space(Space::builder().build());
    assert!(s != other);
    let mut other = make();
    other.find_space_mut("c").unwrap().find_item_mut("j").unwrap().set_name("k");
    assert!(s != other);
    let mut other = make();
    other.find_space_mut("c").unwrap().set_root(true);
    assert!(s != other);
}

#[test]
fn equal_names_are_allowed_everywhere() {
    let twin = Item::builder().name("same").description("d").build();
    let inner = Space::builder().name("same").push_item(twin.clone()).push_item(twin.clone()).build();
    let tree = Space::builder()
        .name("same")
        .push_item(twin.clone())
        .push_space(inner.clone())
        .push_space(inner.clone())
        .build();
    assert_eq!(tree.items().len(), 1);
    assert_eq!(tree.spaces().len(), 2);
    assert_eq!(tree.spaces()[0], tree.spaces()[1]);
    assert_eq!(tree.spaces()[1].items().to_vec(), vec![twin.clone(), twin]);
}
