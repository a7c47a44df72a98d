//! Items: named leaves with a description.

use crate::model::ItemView;
use crate::text::same_text;
use vstd::prelude::*;
use vstd::std_specs::cmp::PartialEqSpecImpl;

verus! {

/// A named leaf value, owned by one space.
#[derive(Debug)]
pub struct Item {
    pub(crate) name: String,
    pub(crate) description: String,
}

impl View for Item {
    type V = ItemView;

    closed spec fn view(&self) -> ItemView {
        ItemView { name: self.name@, description: self.description@ }
    }
}

impl PartialEq for Item {
    fn eq(&self, other: &Self) -> (res: bool) {
        same_text(self.name.as_str(), other.name.as_str()) && same_text(
            self.description.as_str(),
            other.description.as_str(),
        )
    }
}

impl PartialEqSpecImpl for Item {
    open spec fn obeys_eq_spec() -> bool {
        true
    }

    open spec fn eq_spec(&self, other: &Self) -> bool {
        self@ == other@
    }
}

impl Eq for Item {

}

impl Clone for Item {
    fn clone(&self) -> (res: Self)
        ensures
            res@ == self@,
    {
        Item { name: self.name.clone(), description: self.description.clone() }
    }
}

/// The views of a sequence of items, in order.
pub open spec fn item_views(s: Seq<Item>) -> Seq<ItemView> {
    s.map_values(|i: Item| i@)
}

/// Accumulates the fields of an [`Item`]. Nothing is validated.
pub struct ItemBuilder {
    name: String,
    description: String,
}

impl View for ItemBuilder {
    type V = ItemView;

    closed spec fn view(&self) -> ItemView {
        ItemView { name: self.name@, description: self.description@ }
    }
}

impl Default for ItemBuilder {
    fn default() -> (res: Self)
        ensures
            res@ == (ItemView { name: Seq::empty(), description: Seq::empty() }),
    {
        ItemBuilder { name: String::new(), description: String::new() }
    }
}

impl ItemBuilder {
    /// A builder whose name and description are empty.
    pub fn new() -> (res: Self)
        ensures
            res@ == (ItemView { name: Seq::empty(), description: Seq::empty() }),
    {
        ItemBuilder { name: String::new(), description: String::new() }
    }

    /// Sets the name.
    pub fn name(self, name: &str) -> (res: Self)
        ensures
            res@ == (ItemView { name: name@, ..self@ }),
    {
        ItemBuilder { name: name.to_owned(), description: self.description }
    }

    /// Sets the description.
    pub fn description(self, description: &str) -> (res: Self)
        ensures
            res@ == (ItemView { description: description@, ..self@ }),
    {
        ItemBuilder { name: self.name, description: description.to_owned() }
    }

    /// The item with the fields accumulated so far.
    pub fn build(self) -> (res: Item)
        ensures
            res@ == self@,
    {
        Item { name: self.name, description: self.description }
    }
}

impl Item {
    /// Starts an empty builder.
    pub fn builder() -> (res: ItemBuilder)
        ensures
            res@ == (ItemView { name: Seq::empty(), description: Seq::empty() }),
    {
        ItemBuilder::new()
    }

    /// The item's name.
    pub fn name(&self) -> (res: &str)
        ensures
            res@ == self@.name,
    {
        self.name.as_str()
    }

    /// The item's description.
    pub fn description(&self) -> (res: &str)
        ensures
            res@ == self@.description,
    {
        self.description.as_str()
    }

    /// Replaces the name.
    pub fn set_name(&mut self, name: &str)
        ensures
            final(self)@ == (ItemView { name: name@, ..old(self)@ }),
    {
        self.name = name.to_owned();
    }

    /// Replaces the description.
    pub fn set_description(&mut self, description: &str)
        ensures
            final(self)@ == (ItemView { description: description@, ..old(self)@ }),
    {
        self.description = description.to_owned();
    }

    /// The view of an item is made of the views of its two fields.
    pub(crate) proof fn lemma_view(&self)
        ensures
            self@.name == self.name@,
            self@.description == self.description@,
    {
    }
}

} // verus!
