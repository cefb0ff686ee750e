//! Items: the todo entries the store manages.
//!
//! An item carries a store-assigned identifier (present only once
//! persisted), a boundary-facing UUID, a name, optional due and completion
//! dates as signed 64-bit second counts, and the labels attached to it.

use vstd::prelude::*;

use crate::labels::Label;
use crate::labels::LabelModel;
use crate::labels::labels_eq;
use crate::labels::labels_model;

verus! {

/// The mathematical value of an [`Item`].
pub ghost struct ItemModel {
    pub id: Option<i64>,
    pub uuid: u128,
    pub name: Seq<char>,
    pub due_date: Option<i64>,
    pub completion_date: Option<i64>,
    pub labels: Seq<LabelModel>,
}

/// A todo entry. The UUID is generated before persistence, so a caller can
/// know it before the store acknowledges the entry.
#[derive(Debug)]
pub struct Item {
    pub id: Option<i64>,
    pub uuid: u128,
    pub name: String,
    pub due_date: Option<i64>,
    pub completion_date: Option<i64>,
    pub labels: Vec<Label>,
}

impl View for Item {
    type V = ItemModel;

    open spec fn view(&self) -> ItemModel {
        ItemModel {
            id: self.id,
            uuid: self.uuid,
            name: self.name@,
            due_date: self.due_date,
            completion_date: self.completion_date,
            labels: labels_model(self.labels@),
        }
    }
}

impl Clone for Item {
    fn clone(&self) -> (r: Item)
        ensures
            r@ == self@,
    {
        let mut labels: Vec<Label> = Vec::new();
        let n = self.labels.len();
        let mut i: usize = 0;
        while i < n
            invariant
                n == self.labels@.len(),
                i <= n,
                labels@.len() == i,
                forall|k: int| 0 <= k < i ==> labels@[k]@ == self.labels@[k]@,
            decreases n - i,
        {
            labels.push(self.labels[i].clone());
            i += 1;
        }
        let r = Item {
            id: self.id,
            uuid: self.uuid,
            name: self.name.clone(),
            due_date: self.due_date,
            completion_date: self.completion_date,
            labels,
        };
        assert(labels_model(r.labels@) =~= labels_model(self.labels@));
        r
    }
}

impl PartialEq for Item {
    fn eq(&self, other: &Item) -> (r: bool) {
        let ids_match = match (self.id, other.id) {
            (Some(a), Some(b)) => a == b,
            (None, None) => true,
            _ => false,
        };
        let due_match = match (self.due_date, other.due_date) {
            (Some(a), Some(b)) => a == b,
            (None, None) => true,
            _ => false,
        };
        let completion_match = match (self.completion_date, other.completion_date) {
            (Some(a), Some(b)) => a == b,
            (None, None) => true,
            _ => false,
        };
        ids_match && self.uuid == other.uuid && self.name == other.name && due_match
            && completion_match && labels_eq(&self.labels, &other.labels)
    }
}

impl vstd::std_specs::cmp::PartialEqSpecImpl for Item {
    open spec fn obeys_eq_spec() -> bool {
        true
    }

    open spec fn eq_spec(&self, other: &Item) -> bool {
        self@ == other@
    }
}

/// The mathematical value of a sequence of items.
pub open spec fn items_model(v: Seq<Item>) -> Seq<ItemModel> {
    v.map_values(|i: Item| i@)
}

/// A homogeneous collection of items.
#[derive(Debug)]
pub struct Items {
    pub vec: Vec<Item>,
}

impl Items {
    pub fn new(vec: Vec<Item>) -> (r: Items)
        ensures
            r.vec == vec,
    {
        Items { vec }
    }
}

} // verus!
