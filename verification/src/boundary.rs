//! The boundary entry points, on plain values.
//!
//! Each function here is the logic of one foreign entry point: it validates
//! its inputs, drives the store facade, converts the result through the
//! mirror layer, and reports whether the change-notification channel fired.
//! The caller's side performs the raw pointer handling and, when told to,
//! the actual callback invocation.

use vstd::prelude::*;

use crate::ctypes::ItemC;
use crate::ctypes::ItemCList;
use crate::ctypes::ItemCListModel;
use crate::ctypes::item_to_mirror_model;
use crate::ctypes::items_to_mirror_model;
use crate::items::Item;
use crate::items::ItemModel;
use crate::labels::Label;
use crate::labels::LabelModel;
use crate::labels::labels_model;
use crate::store::Toodle;
use crate::store::has_item_id;
use crate::store::has_label_name;
use crate::store::label_index_by_name;
use crate::store::has_item_uuid;
use crate::store::item_index_by_id;
use crate::store::item_index_by_uuid;
use crate::store::materialize_item;
use crate::store::materialized_items;
use crate::store::new_stored_item;
use crate::store::store_wf;
use crate::store::updated_stored_item;
use crate::store::with_new_item;
use crate::uuids::NIL_UUID;
use vstd::pervasive::unreached;

verus! {

/// The domain item a bare create request (a name and an optional due date)
/// stands for before persistence.
pub open spec fn entry_item_model(name: Seq<char>, due: Option<i64>) -> ItemModel {
    ItemModel {
        id: Option::None,
        uuid: NIL_UUID,
        name,
        due_date: due,
        completion_date: Option::None,
        labels: Seq::empty(),
    }
}

/// Creates an item from a name and an optional due date, and hands back an
/// owned mirror of what was persisted. Fires the change channel exactly when
/// the creation succeeded; on failure the caller gets the explicit "no
/// value" signal and the store is untouched. A mirror is owed on an empty
/// store, where no drawn UUID can collide.
pub fn create_item_entry(manager: &mut Toodle, name: String, due: Option<i64>) -> (r: (
    Option<ItemC>,
    bool,
))
    requires
        store_wf(old(manager)@),
        old(manager)@.next_id < i64::MAX,
        old(manager)@.channel.notified < u64::MAX,
    ensures
        store_wf(final(manager)@),
        old(manager)@.items.len() == 0 ==> r.0 is Some,
        match r.0 {
            Some(mirror) => {
                &&& exists|u: u128|
                    {
                        &&& u != NIL_UUID
                        &&& !has_item_uuid(old(manager)@.items, u)
                        &&& final(manager)@.items == old(manager)@.items.push(
                            new_stored_item(old(manager)@, entry_item_model(name@, due), u),
                        )
                        &&& mirror@ == item_to_mirror_model(
                            materialize_item(
                                final(manager)@,
                                new_stored_item(old(manager)@, entry_item_model(name@, due), u),
                            ),
                        )
                    }
                &&& final(manager)@.labels == old(manager)@.labels
                &&& final(manager)@.next_id == old(manager)@.next_id + 1
                &&& r.1 == old(manager)@.channel.registered
                &&& final(manager)@.channel.registered == old(manager)@.channel.registered
                &&& final(manager)@.channel.notified == old(manager)@.channel.notified + (
                if old(manager)@.channel.registered {
                    1int
                } else {
                    0int
                })
            },
            None => !r.1 && final(manager)@ == old(manager)@,
        },
{
    let item = Item {
        id: None,
        uuid: NIL_UUID,
        name,
        due_date: due,
        completion_date: None,
        labels: Vec::new(),
    };
    match manager.create_and_fetch_item(&item) {
        Ok(Some(it)) => {
            let fire = manager.notify_mutation();
            let mirror = it.to_mirror();
            proof {
                assert(item@.labels =~= Seq::<crate::labels::LabelModel>::empty());
                assert(item@ == entry_item_model(item@.name, due));
            }
            (Some(mirror), fire)
        },
        Ok(None) => unreached(),
        Err(_) => (None, false),
    }
}

/// Applies a diff-based update to a caller-borrowed item: the name, each
/// optional date, and the full new label list. Fires the change channel
/// exactly when the stored item was found and updated; an unknown item is a
/// safe no-op.
pub fn update_item_entry(
    manager: &mut Toodle,
    item: &Item,
    name: String,
    due: Option<i64>,
    completion: Option<i64>,
    labels: &Vec<Label>,
) -> (fire: bool)
    requires
        store_wf(old(manager)@),
        item@.id is Some,
        old(manager)@.channel.notified < u64::MAX,
    ensures
        store_wf(final(manager)@),
        final(manager)@.labels == old(manager)@.labels,
        final(manager)@.next_id == old(manager)@.next_id,
        if has_item_id(old(manager)@.items, item@.id->0) {
            let j = item_index_by_id(old(manager)@.items, item@.id->0);
            &&& final(manager)@.items == old(manager)@.items.update(
                j,
                updated_stored_item(
                    old(manager)@.items[j],
                    old(manager)@,
                    item@,
                    Option::Some(name@),
                    due,
                    completion,
                    Option::Some(labels_model(labels@)),
                ),
            )
            &&& fire == old(manager)@.channel.registered
            &&& final(manager)@.channel.registered == old(manager)@.channel.registered
            &&& final(manager)@.channel.notified == old(manager)@.channel.notified + (
            if old(manager)@.channel.registered {
                1int
            } else {
                0int
            })
        } else {
            &&& final(manager)@.items == old(manager)@.items
            &&& final(manager)@.channel == old(manager)@.channel
            &&& !fire
        },
{
    match manager.update_item(item, Some(name), due, completion, Some(labels)) {
        Ok(_) => manager.notify_mutation(),
        Err(_) => false,
    }
}

/// Looks an item up by its UUID and applies a name-and-dates update to it,
/// keeping its labels. Fires the change channel exactly when the item was
/// found; an unknown UUID is a safe no-op.
pub fn update_item_by_uuid_entry(
    manager: &mut Toodle,
    uuid: u128,
    name: String,
    due: Option<i64>,
    completion: Option<i64>,
) -> (fire: bool)
    requires
        store_wf(old(manager)@),
        old(manager)@.channel.notified < u64::MAX,
    ensures
        store_wf(final(manager)@),
        final(manager)@.labels == old(manager)@.labels,
        final(manager)@.next_id == old(manager)@.next_id,
        if has_item_uuid(old(manager)@.items, uuid) {
            let j = item_index_by_uuid(old(manager)@.items, uuid);
            let snap = materialize_item(old(manager)@, old(manager)@.items[j]);
            &&& final(manager)@.items == old(manager)@.items.update(
                j,
                updated_stored_item(
                    old(manager)@.items[j],
                    old(manager)@,
                    snap,
                    Option::Some(name@),
                    due,
                    completion,
                    Option::Some(snap.labels),
                ),
            )
            &&& fire == old(manager)@.channel.registered
            &&& final(manager)@.channel.registered == old(manager)@.channel.registered
            &&& final(manager)@.channel.notified == old(manager)@.channel.notified + (
            if old(manager)@.channel.registered {
                1int
            } else {
                0int
            })
        } else {
            &&& final(manager)@.items == old(manager)@.items
            &&& final(manager)@.channel == old(manager)@.channel
            &&& !fire
        },
{
    let found = match manager.fetch_item(uuid) {
        Ok(o) => o,
        Err(_) => unreached(),
    };
    match found {
        Some(it) => {
            proof {
                let j = item_index_by_uuid(manager@.items, uuid);
                let c = item_index_by_id(manager@.items, manager@.items[j].id);
                assert(0 <= c < manager@.items.len() && manager@.items[c].id
                    == manager@.items[j].id);
                assert(c == j) by {
                    if c < j {
                        assert(manager@.items[c].id != manager@.items[j].id);
                    } else if j < c {
                        assert(manager@.items[j].id != manager@.items[c].id);
                    }
                };
            }
            match manager.update_item(&it, Some(name), due, completion, Some(&it.labels)) {
                Ok(_) => manager.notify_mutation(),
                Err(_) => unreached(),
            }
        },
        None => false,
    }
}

/// Builds the owned boundary collection of every stored item's mirror, or
/// the explicit "no value" signal when the store holds no items: a lent
/// collection is null exactly when it would be empty.
pub fn all_items_entry(manager: &Toodle) -> (r: Option<ItemCList>)
    requires
        store_wf(manager@),
    ensures
        match r {
            Some(list) => manager@.items.len() > 0 && list.wf() && list@ == (ItemCListModel {
                items: items_to_mirror_model(materialized_items(manager@)),
                released: false,
            }),
            None => manager@.items.len() == 0,
        },
{
    let items = match manager.fetch_items() {
        Ok(its) => its,
        Err(_) => unreached(),
    };
    if items.vec.len() == 0 {
        assert(materialized_items(manager@).len() == 0);
        None
    } else {
        let mirrors = items.to_mirror();
        let list = ItemCList::new(mirrors.vec);
        Some(list)
    }
}

/// Builds the owned boundary collection of every stored item's mirror,
/// empty or not: the transfer-out shape, whose ownership the caller must
/// later release exactly once.
pub fn get_all_items_entry(manager: &Toodle) -> (r: ItemCList)
    requires
        store_wf(manager@),
    ensures
        r.wf(),
        r@ == (ItemCListModel {
            items: items_to_mirror_model(materialized_items(manager@)),
            released: false,
        }),
{
    let items = match manager.fetch_items() {
        Ok(its) => its,
        Err(_) => unreached(),
    };
    let mirrors = items.to_mirror();
    ItemCList::new(mirrors.vec)
}

/// Creates (or recolors) a label and hands back an owned copy of what was
/// persisted. Label creation is not wired to the change channel.
pub fn create_label_entry(manager: &mut Toodle, name: String, color: String) -> (r: Option<Label>)
    requires
        store_wf(old(manager)@),
        old(manager)@.next_id < i64::MAX,
    ensures
        store_wf(final(manager)@),
        final(manager)@.items == old(manager)@.items,
        final(manager)@.channel == old(manager)@.channel,
        match r {
            Some(l) => if has_label_name(old(manager)@.labels, name@) {
                let j = label_index_by_name(old(manager)@.labels, name@);
                &&& l@ == (LabelModel {
                    id: old(manager)@.labels[j].id,
                    name: name@,
                    color: color@,
                })
                &&& final(manager)@.labels == old(manager)@.labels.update(j, l@)
                &&& final(manager)@.next_id == old(manager)@.next_id
            } else {
                &&& l@ == (LabelModel { id: Some(old(manager)@.next_id), name: name@, color: color@ })
                &&& final(manager)@.labels == old(manager)@.labels.push(l@)
                &&& final(manager)@.next_id == old(manager)@.next_id + 1
            },
            None => false,
        },
{
    match manager.create_label(name, color) {
        Ok(o) => o,
        Err(_) => unreached(),
    }
}

/// Fetches every stored label as an owned list the caller must release.
pub fn get_all_labels_entry(manager: &Toodle) -> (r: Vec<Label>)
    ensures
        labels_model(r@) == manager@.labels,
{
    match manager.fetch_labels() {
        Ok(v) => v,
        Err(_) => unreached(),
    }
}

} // verus!
