//! The store facade: a synchronous, in-memory transactional view of items
//! and labels behind the boundary.
//!
//! The handle owns all long-lived state: the label table (names unique, as a
//! natural key), the item table (UUIDs unique), the entity-identifier
//! counter, and the change-notification slot. Items hold their labels as
//! references to label identifiers, so a label's color change is visible
//! through every item that carries it.

use vstd::prelude::*;

use crate::channel::ChangeChannel;
use crate::errors::StoreError;
use crate::items::Item;
use crate::items::ItemModel;
use crate::items::Items;
use crate::items::items_model;
use crate::labels::Label;
use crate::labels::LabelModel;
use crate::labels::labels_contain;
use crate::labels::labels_model;
use crate::rows::RowValue;
use crate::rows::RowValueModel;
use crate::rows::row_model;
use crate::uuids::NIL_UUID;
use crate::uuids::create_uuid;
use vstd::pervasive::unreached;

verus! {

/// The mathematical value of a [`StoredItem`].
pub ghost struct StoredItemModel {
    pub id: i64,
    pub uuid: u128,
    pub name: Seq<char>,
    pub due_date: Option<i64>,
    pub completion_date: Option<i64>,
    pub label_ids: Seq<i64>,
}

/// An item as the store holds it: labels by identifier, not by value.
#[derive(Debug)]
pub struct StoredItem {
    pub id: i64,
    pub uuid: u128,
    pub name: String,
    pub due_date: Option<i64>,
    pub completion_date: Option<i64>,
    pub label_ids: Vec<i64>,
}

impl View for StoredItem {
    type V = StoredItemModel;

    open spec fn view(&self) -> StoredItemModel {
        StoredItemModel {
            id: self.id,
            uuid: self.uuid,
            name: self.name@,
            due_date: self.due_date,
            completion_date: self.completion_date,
            label_ids: self.label_ids@,
        }
    }
}

/// The mathematical value of the store behind a [`Toodle`] handle.
pub ghost struct ToodleModel {
    pub labels: Seq<LabelModel>,
    pub items: Seq<StoredItemModel>,
    pub next_id: i64,
    pub channel: ChangeChannel,
}

/// The mathematical value of a sequence of stored items.
pub open spec fn stored_items_model(v: Seq<StoredItem>) -> Seq<StoredItemModel> {
    v.map_values(|s: StoredItem| s@)
}

/// Whether some stored label carries this identifier.
pub open spec fn has_label_id(labels: Seq<LabelModel>, id: i64) -> bool {
    exists|j: int| 0 <= j < labels.len() && labels[j].id == Some(id)
}

/// Whether some stored label carries this name.
pub open spec fn has_label_name(labels: Seq<LabelModel>, name: Seq<char>) -> bool {
    exists|j: int| 0 <= j < labels.len() && labels[j].name == name
}

/// The index of the label with this name (unique by the store invariant).
pub open spec fn label_index_by_name(labels: Seq<LabelModel>, name: Seq<char>) -> int {
    choose|j: int| 0 <= j < labels.len() && labels[j].name == name
}

/// The index of the label with this identifier (unique by the store
/// invariant).
pub open spec fn label_index_by_id(labels: Seq<LabelModel>, id: i64) -> int {
    choose|j: int| 0 <= j < labels.len() && labels[j].id == Some(id)
}

/// The label carrying this identifier.
pub open spec fn label_with_id(labels: Seq<LabelModel>, id: i64) -> LabelModel {
    labels[label_index_by_id(labels, id)]
}

/// Whether some stored item carries this UUID.
pub open spec fn has_item_uuid(items: Seq<StoredItemModel>, uuid: u128) -> bool {
    exists|j: int| 0 <= j < items.len() && items[j].uuid == uuid
}

/// The index of the item with this UUID (unique by the store invariant).
pub open spec fn item_index_by_uuid(items: Seq<StoredItemModel>, uuid: u128) -> int {
    choose|j: int| 0 <= j < items.len() && items[j].uuid == uuid
}

/// Whether some stored item carries this store identifier.
pub open spec fn has_item_id(items: Seq<StoredItemModel>, id: i64) -> bool {
    exists|j: int| 0 <= j < items.len() && items[j].id == id
}

/// The index of the item with this store identifier (unique by the store
/// invariant).
pub open spec fn item_index_by_id(items: Seq<StoredItemModel>, id: i64) -> int {
    choose|j: int| 0 <= j < items.len() && items[j].id == id
}

/// A stored item's label references: no duplicates, and every identifier
/// names a label the store holds.
pub open spec fn item_links_wf(s: StoredItemModel, labels: Seq<LabelModel>) -> bool {
    &&& forall|a: int, b: int| 0 <= a < b < s.label_ids.len() ==> s.label_ids[a] != s.label_ids[b]
    &&& forall|a: int| 0 <= a < s.label_ids.len() ==> has_label_id(labels, #[trigger] s.label_ids[a])
}

/// The store invariant: every label persisted and below the identifier
/// counter, label identifiers and names unique, item identifiers and UUIDs
/// unique, and every label reference well formed.
pub open spec fn store_wf(m: ToodleModel) -> bool {
    &&& 1 <= m.next_id
    &&& forall|j: int| 0 <= j < m.labels.len() ==> (#[trigger] m.labels[j]).id is Some
    &&& forall|j: int| 0 <= j < m.labels.len() ==> (#[trigger] m.labels[j]).id->0 < m.next_id
    &&& forall|j: int, k: int|
        0 <= j < k < m.labels.len() ==> m.labels[j].id != m.labels[k].id
    &&& forall|j: int, k: int|
        0 <= j < k < m.labels.len() ==> m.labels[j].name != m.labels[k].name
    &&& forall|j: int| 0 <= j < m.items.len() ==> (#[trigger] m.items[j]).id < m.next_id
    &&& forall|j: int, k: int| 0 <= j < k < m.items.len() ==> m.items[j].id != m.items[k].id
    &&& forall|j: int, k: int|
        0 <= j < k < m.items.len() ==> m.items[j].uuid != m.items[k].uuid
    &&& forall|j: int| 0 <= j < m.items.len() ==> item_links_wf(#[trigger] m.items[j], m.labels)
}

/// The identifiers of the labels in `new` that the store can link and that
/// are not yet accounted for: each must carry a persisted identifier the
/// store knows, must not already stand in `existing` (the labels the item
/// carries now), and is appended to `base` once, in first-appearance order.
pub open spec fn ids_to_add(
    new: Seq<LabelModel>,
    existing: Seq<LabelModel>,
    store_labels: Seq<LabelModel>,
    base: Seq<i64>,
) -> Seq<i64>
    decreases new.len(),
{
    if new.len() == 0 {
        base
    } else {
        let prev = ids_to_add(new.drop_last(), existing, store_labels, base);
        let l = new.last();
        if l.id is Some && !existing.contains(l) && has_label_id(store_labels, l.id->0)
            && !prev.contains(l.id->0) {
            prev.push(l.id->0)
        } else {
            prev
        }
    }
}

/// The label references a newly created item gets: the labels it was handed
/// that the store can link, without duplicates, in first-appearance order.
pub open spec fn linked_label_ids(labels: Seq<LabelModel>, store_labels: Seq<LabelModel>) -> Seq<
    i64,
> {
    ids_to_add(labels, Seq::empty(), store_labels, Seq::empty())
}

/// The stored form of an item created against store state `m`.
pub open spec fn new_stored_item(m: ToodleModel, item: ItemModel, uuid: u128) -> StoredItemModel {
    StoredItemModel {
        id: m.next_id,
        uuid,
        name: item.name,
        due_date: item.due_date,
        completion_date: item.completion_date,
        label_ids: linked_label_ids(item.labels, m.labels),
    }
}

/// The store after an item creation succeeds.
pub open spec fn with_new_item(m: ToodleModel, item: ItemModel, uuid: u128) -> ToodleModel {
    ToodleModel {
        labels: m.labels,
        items: m.items.push(new_stored_item(m, item, uuid)),
        next_id: (m.next_id + 1) as i64,
        channel: m.channel,
    }
}

/// A stored item materialized as a domain item: labels resolved by value.
pub open spec fn materialize_item(m: ToodleModel, s: StoredItemModel) -> ItemModel {
    ItemModel {
        id: Some(s.id),
        uuid: s.uuid,
        name: s.name,
        due_date: s.due_date,
        completion_date: s.completion_date,
        labels: s.label_ids.map_values(|id: i64| label_with_id(m.labels, id)),
    }
}

/// Every stored item materialized, in store order.
pub open spec fn materialized_items(m: ToodleModel) -> Seq<ItemModel> {
    m.items.map_values(|s: StoredItemModel| materialize_item(m, s))
}

/// The labels the item with this UUID carries, resolved by value; empty when
/// the store holds no such item.
pub open spec fn existing_labels(m: ToodleModel, uuid: u128) -> Seq<LabelModel> {
    if has_item_uuid(m.items, uuid) {
        m.items[item_index_by_uuid(m.items, uuid)].label_ids.map_values(
            |id: i64| label_with_id(m.labels, id),
        )
    } else {
        Seq::empty()
    }
}

/// The stored items that carry a reference to this label identifier, in
/// store order.
pub open spec fn selected_items(items: Seq<StoredItemModel>, lid: i64) -> Seq<StoredItemModel>
    decreases items.len(),
{
    if items.len() == 0 {
        Seq::empty()
    } else {
        let prev = selected_items(items.drop_last(), lid);
        if items.last().label_ids.contains(lid) {
            prev.push(items.last())
        } else {
            prev
        }
    }
}

/// Whether the first three columns of a row are an identifier, a UUID and a
/// name, as an item query yields them.
pub open spec fn is_item_row(row: Seq<RowValueModel>) -> bool {
    &&& row.len() >= 3
    &&& row[0] is Ref
    &&& row[1] is Uuid
    &&& row[2] is Text
}

/// The due date stored for the item with this UUID; nothing when the store
/// holds no such item.
pub open spec fn stored_due_date(m: ToodleModel, uuid: u128) -> Option<i64> {
    if has_item_uuid(m.items, uuid) {
        m.items[item_index_by_uuid(m.items, uuid)].due_date
    } else {
        Option::None
    }
}

/// The completion date stored for the item with this UUID; nothing when the
/// store holds no such item.
pub open spec fn stored_completion_date(m: ToodleModel, uuid: u128) -> Option<i64> {
    if has_item_uuid(m.items, uuid) {
        m.items[item_index_by_uuid(m.items, uuid)].completion_date
    } else {
        Option::None
    }
}

/// The items carrying the label with this name, materialized; empty when the
/// store holds no label of that name.
pub open spec fn items_with_label(m: ToodleModel, name: Seq<char>) -> Seq<ItemModel> {
    if has_label_name(m.labels, name) {
        selected_items(m.items, m.labels[label_index_by_name(m.labels, name)].id->0).map_values(
            |s: StoredItemModel| materialize_item(m, s),
        )
    } else {
        Seq::empty()
    }
}

/// Whether the item carries, among `existing`, a label with this identifier
/// that the caller's new label set no longer holds: such a reference is
/// retracted by the update.
pub open spec fn removed_id(id: i64, existing: Seq<LabelModel>, new: Seq<LabelModel>) -> bool {
    exists|j: int|
        0 <= j < existing.len() && existing[j].id == Some(id) && !new.contains(existing[j])
}

/// The label references left after the retractions of a diff-based update:
/// `ids` with every reference removed whose label fell out of the new set.
pub open spec fn surviving_ids(
    ids: Seq<i64>,
    existing: Seq<LabelModel>,
    new: Seq<LabelModel>,
) -> Seq<i64>
    decreases ids.len(),
{
    if ids.len() == 0 {
        Seq::empty()
    } else {
        let prev = surviving_ids(ids.drop_last(), existing, new);
        if removed_id(ids.last(), existing, new) {
            prev
        } else {
            prev.push(ids.last())
        }
    }
}

/// The stored item after a diff-based update. Each field changes exactly
/// when the caller's value differs from the caller's snapshot `item`, so a
/// field the caller did not touch keeps its stored value. The label diff is
/// taken against the labels the stored item carries now: additions are
/// appended, then references to labels that fell out of the new set are
/// retracted.
pub open spec fn updated_stored_item(
    s: StoredItemModel,
    m: ToodleModel,
    item: ItemModel,
    name: Option<Seq<char>>,
    due: Option<i64>,
    completion: Option<i64>,
    labels: Option<Seq<LabelModel>>,
) -> StoredItemModel {
    StoredItemModel {
        id: s.id,
        uuid: s.uuid,
        name: match name {
            Option::Some(nm) => if nm != item.name {
                nm
            } else {
                s.name
            },
            Option::None => s.name,
        },
        due_date: if due != item.due_date {
            due
        } else {
            s.due_date
        },
        completion_date: if completion != item.completion_date {
            completion
        } else {
            s.completion_date
        },
        label_ids: match labels {
            Option::Some(new) => {
                let ex = existing_labels(m, item.uuid);
                surviving_ids(ids_to_add(new, ex, m.labels, s.label_ids), ex, new)
            },
            Option::None => s.label_ids,
        },
    }
}

/// When every old label keeps its identifier, every identifier that resolved
/// before still resolves.
proof fn lemma_has_label_id_monotone(pre: Seq<LabelModel>, post: Seq<LabelModel>)
    requires
        pre.len() <= post.len(),
        forall|k: int| 0 <= k < pre.len() ==> post[k].id == pre[k].id,
    ensures
        forall|id: i64| has_label_id(pre, id) ==> has_label_id(post, id),
{
    assert forall|id: i64| has_label_id(pre, id) implies has_label_id(post, id) by {
        let w = choose|j: int| 0 <= j < pre.len() && pre[j].id == Some(id);
        assert(post[w].id == Some(id));
    }
}

/// Label references stay well formed across a label-table change that keeps
/// every resolvable identifier resolvable.
proof fn lemma_links_preserved(
    items: Seq<StoredItemModel>,
    pre: Seq<LabelModel>,
    post: Seq<LabelModel>,
)
    requires
        forall|id: i64| has_label_id(pre, id) ==> has_label_id(post, id),
        forall|j: int| 0 <= j < items.len() ==> item_links_wf(#[trigger] items[j], pre),
    ensures
        forall|j: int| 0 <= j < items.len() ==> item_links_wf(#[trigger] items[j], post),
{
    assert forall|j: int| 0 <= j < items.len() implies item_links_wf(items[j], post) by {
        assert(item_links_wf(items[j], pre));
        assert forall|a: int|
            0 <= a < items[j].label_ids.len() implies has_label_id(
            post,
            #[trigger] items[j].label_ids[a],
        ) by {
            assert(has_label_id(pre, items[j].label_ids[a]));
        }
    }
}

/// Every reference that survives the retractions stood among the references
/// the diff started from.
proof fn lemma_surviving_subset(ids: Seq<i64>, existing: Seq<LabelModel>, new: Seq<LabelModel>)
    ensures
        forall|p: int|
            0 <= p < surviving_ids(ids, existing, new).len() ==> ids.contains(
                #[trigger] surviving_ids(ids, existing, new)[p],
            ),
    decreases ids.len(),
{
    if ids.len() > 0 {
        lemma_surviving_subset(ids.drop_last(), existing, new);
        let prev = surviving_ids(ids.drop_last(), existing, new);
        assert forall|p: int|
            0 <= p < surviving_ids(ids, existing, new).len() implies ids.contains(
            #[trigger] surviving_ids(ids, existing, new)[p],
        ) by {
            let s = surviving_ids(ids, existing, new);
            if p < prev.len() {
                assert(ids.drop_last().contains(prev[p]));
                let w = choose|k: int| 0 <= k < ids.drop_last().len() && ids.drop_last()[k] == prev[p];
                assert(ids[w] == prev[p]);
            } else {
                assert(s[p] == ids.last());
                assert(ids[ids.len() - 1] == ids.last());
            }
        }
    }
}

/// Retractions keep the references distinct.
proof fn lemma_surviving_distinct(ids: Seq<i64>, existing: Seq<LabelModel>, new: Seq<LabelModel>)
    requires
        forall|p: int, q: int| 0 <= p < q < ids.len() ==> ids[p] != ids[q],
    ensures
        forall|p: int, q: int|
            0 <= p < q < surviving_ids(ids, existing, new).len() ==> surviving_ids(
                ids,
                existing,
                new,
            )[p] != surviving_ids(ids, existing, new)[q],
    decreases ids.len(),
{
    if ids.len() > 0 {
        let rest = ids.drop_last();
        lemma_surviving_distinct(rest, existing, new);
        lemma_surviving_subset(rest, existing, new);
        let prev = surviving_ids(rest, existing, new);
        assert forall|p: int| 0 <= p < prev.len() implies prev[p] != ids.last() by {
            assert(rest.contains(prev[p]));
            let w = choose|k: int| 0 <= k < rest.len() && rest[k] == prev[p];
            assert(ids[w] == prev[p]);
            assert(ids[w] != ids[ids.len() - 1]);
        }
    }
}

/// Whether a vector of label identifiers holds the given one.
fn ids_contain(v: &Vec<i64>, id: i64) -> (r: bool)
    ensures
        r == v@.contains(id),
{
    let n = v.len();
    let mut i: usize = 0;
    while i < n
        invariant
            n == v@.len(),
            i <= n,
            forall|k: int| 0 <= k < i ==> v@[k] != id,
        decreases n - i,
    {
        if v[i] == id {
            assert(v@.contains(id)) by { assert(v@[i as int] == id) };
            return true;
        }
        i += 1;
    }
    false
}

/// Whether the diff must retract the reference `id`: some label the item
/// carries now has that identifier and fell out of the caller's new set.
fn label_id_removed(id: i64, existing: &Vec<Label>, new_labels: &Vec<Label>) -> (r: bool)
    ensures
        r == removed_id(id, labels_model(existing@), labels_model(new_labels@)),
{
    let n = existing.len();
    let mut i: usize = 0;
    while i < n
        invariant
            n == existing@.len(),
            i <= n,
            forall|k: int|
                0 <= k < i ==> !(labels_model(existing@)[k].id == Some(id) && !labels_model(
                    new_labels@,
                ).contains(labels_model(existing@)[k])),
        decreases n - i,
    {
        let id_hit = match existing[i].id {
            Some(x) => x == id,
            None => false,
        };
        if id_hit && !labels_contain(new_labels, &existing[i]) {
            assert(removed_id(id, labels_model(existing@), labels_model(new_labels@))) by {
                assert(labels_model(existing@)[i as int].id == Some(id) && !labels_model(
                    new_labels@,
                ).contains(labels_model(existing@)[i as int]));
            };
            return true;
        }
        i += 1;
    }
    false
}

/// The owning handle of one open store. It owns the change-notification
/// slot, so two handles in one process never collide on it.
#[derive(Debug)]
pub struct Toodle {
    labels: Vec<Label>,
    items: Vec<StoredItem>,
    next_id: i64,
    channel: ChangeChannel,
}

impl View for Toodle {
    type V = ToodleModel;

    closed spec fn view(&self) -> ToodleModel {
        ToodleModel {
            labels: labels_model(self.labels@),
            items: stored_items_model(self.items@),
            next_id: self.next_id,
            channel: self.channel,
        }
    }
}

impl Toodle {
    /// Opens a store at the given location. The in-memory store always
    /// initializes; a failure would surface as the error value rather than
    /// aborting the process.
    pub fn new(_uri: String) -> (r: Result<Toodle, StoreError>)
        ensures
            match r {
                Result::Ok(t) => {
                    &&& store_wf(t@)
                    &&& t@.labels.len() == 0
                    &&& t@.items.len() == 0
                    &&& t@.next_id == 1
                    &&& !t@.channel.registered
                    &&& t@.channel.notified == 0
                },
                Result::Err(_) => false,
            },
    {
        Ok(
            Toodle {
                labels: Vec::new(),
                items: Vec::new(),
                next_id: 1,
                channel: ChangeChannel::new(),
            },
        )
    }

    /// Registers the caller's change callback, replacing and discarding any
    /// earlier one, and orders one immediate invocation of the new callback
    /// as the confirmation signal. The returned flag tells the caller to
    /// perform that invocation now.
    pub fn register_change_callback(&mut self) -> (fire: bool)
        requires
            old(self)@.channel.notified < u64::MAX,
        ensures
            fire,
            final(self)@.channel.registered,
            final(self)@.channel.notified == old(self)@.channel.notified + 1,
            final(self)@.labels == old(self)@.labels,
            final(self)@.items == old(self)@.items,
            final(self)@.next_id == old(self)@.next_id,
    {
        self.channel.register()
    }

    /// Reports a successful mutation to the channel this handle owns.
    pub(crate) fn notify_mutation(&mut self) -> (fire: bool)
        requires
            old(self)@.channel.notified < u64::MAX,
        ensures
            fire == old(self)@.channel.registered,
            final(self)@.channel.registered == old(self)@.channel.registered,
            final(self)@.channel.notified == old(self)@.channel.notified + (
            if old(self)@.channel.registered {
                1int
            } else {
                0int
            }),
            final(self)@.labels == old(self)@.labels,
            final(self)@.items == old(self)@.items,
            final(self)@.next_id == old(self)@.next_id,
    {
        self.channel.on_mutation()
    }

    /// Whether a counter of this handle has reached its machine limit, so
    /// that no further creation or notification can be accepted.
    pub fn at_capacity(&self) -> (r: bool)
        ensures
            r == (self@.next_id == i64::MAX || self@.channel.notified == u64::MAX),
    {
        self.next_id == i64::MAX || self.channel.notified == u64::MAX
    }

    /// How many callback invocations the channel has ordered so far.
    pub fn change_notifications(&self) -> (r: u64)
        ensures
            r == self@.channel.notified,
    {
        self.channel.notified
    }

    /// Whether a change callback is currently registered.
    pub fn change_callback_registered(&self) -> (r: bool)
        ensures
            r == self@.channel.registered,
    {
        self.channel.registered
    }

    /// The index of the stored label carrying this name, if any.
    fn find_label_index(&self, name: &String) -> (r: Option<usize>)
        ensures
            match r {
                Some(j) => j < self@.labels.len() && self@.labels[j as int].name == name@,
                None => forall|k: int| 0 <= k < self@.labels.len() ==> self@.labels[k].name != name@,
            },
    {
        let n = self.labels.len();
        let mut i: usize = 0;
        while i < n
            invariant
                n == self.labels@.len(),
                i <= n,
                forall|k: int| 0 <= k < i ==> self@.labels[k].name != name@,
            decreases n - i,
        {
            if self.labels[i].name == *name {
                return Some(i);
            }
            i += 1;
        }
        None
    }

    /// Creates a label, or updates the color of the label already carrying
    /// this name: the name acts as a natural key with upsert semantics.
    /// Always yields the persisted label.
    pub fn create_label(&mut self, name: String, color: String) -> (r: Result<
        Option<Label>,
        StoreError,
    >)
        requires
            store_wf(old(self)@),
            old(self)@.next_id < i64::MAX,
        ensures
            store_wf(final(self)@),
            final(self)@.channel == old(self)@.channel,
            final(self)@.items == old(self)@.items,
            match r {
                Result::Ok(o) => o is Some && {
                    let l = o->0;
                    if has_label_name(old(self)@.labels, name@) {
                        let j = label_index_by_name(old(self)@.labels, name@);
                        &&& l@ == (LabelModel {
                            id: old(self)@.labels[j].id,
                            name: name@,
                            color: color@,
                        })
                        &&& final(self)@.labels == old(self)@.labels.update(j, l@)
                        &&& final(self)@.next_id == old(self)@.next_id
                    } else {
                        &&& l@ == (LabelModel {
                            id: Some(old(self)@.next_id),
                            name: name@,
                            color: color@,
                        })
                        &&& final(self)@.labels == old(self)@.labels.push(l@)
                        &&& final(self)@.next_id == old(self)@.next_id + 1
                    }
                },
                Result::Err(_) => false,
            },
    {
        match self.find_label_index(&name) {
            Some(j) => {
                proof {
                    let c = label_index_by_name(self@.labels, name@);
                    assert(0 <= c < self@.labels.len() && self@.labels[c].name == name@);
                    assert(c == j);
                }
                let replacement = Label { id: self.labels[j].id, name, color };
                let l = replacement.clone();
                self.labels[j] = replacement;
                proof {
                    assert(labels_model(self.labels@) =~= labels_model(
                        old(self).labels@,
                    ).update(j as int, l@));
                    let pre = old(self)@;
                    let post = self@;
                    assert(forall|k: int|
                        0 <= k < post.labels.len() ==> post.labels[k].id == pre.labels[k].id
                            && post.labels[k].name == pre.labels[k].name);
                    lemma_has_label_id_monotone(pre.labels, post.labels);
                    lemma_links_preserved(pre.items, pre.labels, post.labels);
                    assert(store_wf(post));
                }
                Ok(Some(l))
            },
            None => {
                let id = self.next_id;
                self.next_id = self.next_id + 1;
                let l = Label { id: Some(id), name, color };
                let ret = l.clone();
                self.labels.push(l);
                proof {
                    assert(labels_model(self.labels@) =~= labels_model(old(self).labels@).push(
                        ret@,
                    ));
                    let pre = old(self)@;
                    let post = self@;
                    assert(forall|k: int|
                        0 <= k < pre.labels.len() ==> post.labels[k].id == pre.labels[k].id);
                    lemma_has_label_id_monotone(pre.labels, post.labels);
                    lemma_links_preserved(pre.items, pre.labels, post.labels);
                    assert(store_wf(post));
                }
                Ok(Some(ret))
            },
        }
    }

    /// Fetches the label carrying this name, if the store holds one.
    pub fn fetch_label(&self, name: &String) -> (r: Result<Option<Label>, StoreError>)
        requires
            store_wf(self@),
        ensures
            match r {
                Result::Ok(o) => match o {
                    Some(l) => has_label_name(self@.labels, name@) && l@ == self@.labels[
                        label_index_by_name(self@.labels, name@)
                    ],
                    None => !has_label_name(self@.labels, name@),
                },
                Result::Err(_) => false,
            },
    {
        match self.find_label_index(name) {
            Some(j) => {
                proof {
                    let c = label_index_by_name(self@.labels, name@);
                    assert(0 <= c < self@.labels.len() && self@.labels[c].name == name@);
                    assert(c == j);
                }
                Ok(Some(self.labels[j].clone()))
            },
            None => Ok(None),
        }
    }

    /// Whether some stored label carries this identifier.
    fn contains_label_id(&self, id: i64) -> (r: bool)
        ensures
            r == has_label_id(self@.labels, id),
    {
        let n = self.labels.len();
        let mut i: usize = 0;
        while i < n
            invariant
                n == self.labels@.len(),
                i <= n,
                forall|k: int| 0 <= k < i ==> self@.labels[k].id != Some(id),
            decreases n - i,
        {
            let hit = match self.labels[i].id {
                Some(x) => x == id,
                None => false,
            };
            if hit {
                assert(has_label_id(self@.labels, id)) by {
                    assert(self@.labels[i as int].id == Some(id));
                };
                return true;
            }
            i += 1;
        }
        false
    }

    /// An independent copy of the stored label carrying this identifier.
    fn label_by_id(&self, id: i64) -> (r: Label)
        requires
            store_wf(self@),
            has_label_id(self@.labels, id),
        ensures
            r@ == label_with_id(self@.labels, id),
    {
        let n = self.labels.len();
        let mut i: usize = 0;
        while i < n
            invariant
                store_wf(self@),
                has_label_id(self@.labels, id),
                n == self.labels@.len(),
                i <= n,
                forall|k: int| 0 <= k < i ==> self@.labels[k].id != Some(id),
            decreases n - i,
        {
            let hit = match self.labels[i].id {
                Some(x) => x == id,
                None => false,
            };
            if hit {
                proof {
                    assert(self@.labels[i as int].id == Some(id));
                    assert(has_label_id(self@.labels, id));
                    let c = label_index_by_id(self@.labels, id);
                    assert(0 <= c < self@.labels.len() && self@.labels[c].id == Some(id));
                    assert(c == i) by {
                        if c < i as int {
                            assert(self@.labels[c].id != self@.labels[i as int].id);
                        } else if (i as int) < c {
                            assert(self@.labels[i as int].id != self@.labels[c].id);
                        }
                    };
                }
                return self.labels[i].clone();
            }
            i += 1;
        }
        proof {
            let w = choose|j: int|
                0 <= j < self@.labels.len() && self@.labels[j].id == Some(id);
            assert(false);
        }
        unreached()
    }

    /// The index of the stored item carrying this UUID, if any.
    fn find_item_index_by_uuid(&self, uuid: u128) -> (r: Option<usize>)
        ensures
            match r {
                Some(j) => j < self@.items.len() && self@.items[j as int].uuid == uuid,
                None => !has_item_uuid(self@.items, uuid),
            },
    {
        let n = self.items.len();
        let mut i: usize = 0;
        while i < n
            invariant
                n == self.items@.len(),
                i <= n,
                forall|k: int| 0 <= k < i ==> self@.items[k].uuid != uuid,
            decreases n - i,
        {
            if self.items[i].uuid == uuid {
                return Some(i);
            }
            i += 1;
        }
        None
    }

    /// Materializes the stored item at index `j` as a domain item, resolving
    /// every label reference by value.
    fn materialize(&self, j: usize) -> (r: Item)
        requires
            store_wf(self@),
            j < self@.items.len(),
        ensures
            r@ == materialize_item(self@, self@.items[j as int]),
    {
        let mut labels: Vec<Label> = Vec::new();
        let n = self.items[j].label_ids.len();
        let mut a: usize = 0;
        while a < n
            invariant
                store_wf(self@),
                j < self@.items.len(),
                n == self@.items[j as int].label_ids.len(),
                a <= n,
                labels@.len() == a,
                forall|k: int|
                    0 <= k < a ==> labels@[k]@ == label_with_id(
                        self@.labels,
                        self@.items[j as int].label_ids[k],
                    ),
            decreases n - a,
        {
            let id = self.items[j].label_ids[a];
            proof {
                assert(item_links_wf(self@.items[j as int], self@.labels));
                assert(has_label_id(self@.labels, id));
            }
            labels.push(self.label_by_id(id));
            a += 1;
        }
        let s = &self.items[j];
        let r = Item {
            id: Some(s.id),
            uuid: s.uuid,
            name: s.name.clone(),
            due_date: s.due_date,
            completion_date: s.completion_date,
            labels,
        };
        assert(r@.labels =~= materialize_item(self@, self@.items[j as int]).labels);
        r
    }

    /// Fetches the item carrying this UUID, if the store holds one, with its
    /// dates and labels resolved.
    pub fn fetch_item(&self, uuid: u128) -> (r: Result<Option<Item>, StoreError>)
        requires
            store_wf(self@),
        ensures
            match r {
                Result::Ok(o) => match o {
                    Some(it) => has_item_uuid(self@.items, uuid) && it@ == materialize_item(
                        self@,
                        self@.items[item_index_by_uuid(self@.items, uuid)],
                    ),
                    None => !has_item_uuid(self@.items, uuid),
                },
                Result::Err(_) => false,
            },
    {
        match self.find_item_index_by_uuid(uuid) {
            Some(j) => {
                proof {
                    assert(has_item_uuid(self@.items, uuid)) by {
                        assert(self@.items[j as int].uuid == uuid);
                    };
                    let c = item_index_by_uuid(self@.items, uuid);
                    assert(0 <= c < self@.items.len() && self@.items[c].uuid == uuid);
                    assert(c == j);
                }
                Ok(Some(self.materialize(j)))
            },
            None => Ok(None),
        }
    }

    /// Fetches the labels the item with this UUID carries; empty when the
    /// store holds no such item.
    pub fn fetch_labels_for_item(&self, item_uuid: u128) -> (r: Result<Vec<Label>, StoreError>)
        requires
            store_wf(self@),
        ensures
            match r {
                Result::Ok(v) => labels_model(v@) == existing_labels(self@, item_uuid),
                Result::Err(_) => false,
            },
    {
        match self.find_item_index_by_uuid(item_uuid) {
            Some(j) => {
                proof {
                    assert(has_item_uuid(self@.items, item_uuid)) by {
                        assert(self@.items[j as int].uuid == item_uuid);
                    };
                    let c = item_index_by_uuid(self@.items, item_uuid);
                    assert(0 <= c < self@.items.len() && self@.items[c].uuid == item_uuid);
                    assert(c == j);
                }
                let it = self.materialize(j);
                Ok(it.labels)
            },
            None => {
                let v: Vec<Label> = Vec::new();
                assert(labels_model(v@) =~= existing_labels(self@, item_uuid));
                Ok(v)
            },
        }
    }

    /// Fetches every stored item, materialized, in store order.
    pub fn fetch_items(&self) -> (r: Result<Items, StoreError>)
        requires
            store_wf(self@),
        ensures
            match r {
                Result::Ok(its) => items_model(its.vec@) == materialized_items(self@),
                Result::Err(_) => false,
            },
    {
        let mut v: Vec<Item> = Vec::new();
        let n = self.items.len();
        let mut i: usize = 0;
        while i < n
            invariant
                store_wf(self@),
                n == self@.items.len(),
                i <= n,
                v@.len() == i,
                forall|k: int|
                    0 <= k < i ==> v@[k]@ == materialize_item(self@, self@.items[k]),
            decreases n - i,
        {
            v.push(self.materialize(i));
            i += 1;
        }
        assert(items_model(v@) =~= materialized_items(self@));
        Ok(Items::new(v))
    }

    /// Fetches every item that carries the label with this label's name,
    /// materialized, in store order.
    pub fn fetch_items_with_label(&self, label: &Label) -> (r: Result<Vec<Item>, StoreError>)
        requires
            store_wf(self@),
        ensures
            match r {
                Result::Ok(v) => items_model(v@) == items_with_label(self@, label@.name),
                Result::Err(_) => false,
            },
    {
        match self.find_label_index(&label.name) {
            None => {
                let v: Vec<Item> = Vec::new();
                assert(items_model(v@) =~= items_with_label(self@, label@.name));
                Ok(v)
            },
            Some(lj) => {
                proof {
                    assert(has_label_name(self@.labels, label@.name)) by {
                        assert(self@.labels[lj as int].name == label@.name);
                    };
                    let c = label_index_by_name(self@.labels, label@.name);
                    assert(0 <= c < self@.labels.len() && self@.labels[c].name == label@.name);
                    assert(c == lj);
                }
                let lid = match self.labels[lj].id {
                    Some(x) => x,
                    None => unreached(),
                };
                let mut v: Vec<Item> = Vec::new();
                let n = self.items.len();
                let mut i: usize = 0;
                while i < n
                    invariant
                        store_wf(self@),
                        n == self@.items.len(),
                        i <= n,
                        v@.len() == selected_items(self@.items.take(i as int), lid).len(),
                        forall|k: int|
                            0 <= k < v@.len() ==> v@[k]@ == materialize_item(
                                self@,
                                selected_items(self@.items.take(i as int), lid)[k],
                            ),
                    decreases n - i,
                {
                    proof {
                        assert(self@.items.take(i + 1).drop_last() =~= self@.items.take(i as int));
                        assert(self@.items.take(i + 1).last() == self@.items[i as int]);
                    }
                    if ids_contain(&self.items[i].label_ids, lid) {
                        v.push(self.materialize(i));
                        proof {
                            let pre = selected_items(self@.items.take(i as int), lid);
                            let post = selected_items(self@.items.take(i + 1), lid);
                            assert(post == pre.push(self@.items[i as int]));
                        }
                    } else {
                        proof {
                            assert(selected_items(self@.items.take(i + 1), lid) == selected_items(
                                self@.items.take(i as int),
                                lid,
                            ));
                        }
                    }
                    i += 1;
                }
                proof {
                    assert(self@.items.take(n as int) =~= self@.items);
                    let sel = selected_items(self@.items, lid);
                    assert(items_model(v@) =~= sel.map_values(
                        |s: StoredItemModel| materialize_item(self@, s),
                    ));
                }
                Ok(v)
            },
        }
    }

    /// The label references an item created now would get.
    fn linked_ids_for(&self, item: &Item) -> (r: Vec<i64>)
        ensures
            r@ == linked_label_ids(item@.labels, self@.labels),
            forall|a: int, b: int| 0 <= a < b < r@.len() ==> r@[a] != r@[b],
            forall|a: int| 0 <= a < r@.len() ==> has_label_id(self@.labels, #[trigger] r@[a]),
    {
        let mut ids: Vec<i64> = Vec::new();
        let n = item.labels.len();
        let mut i: usize = 0;
        while i < n
            invariant
                n == item.labels@.len(),
                i <= n,
                ids@ == ids_to_add(
                    item@.labels.take(i as int),
                    Seq::<LabelModel>::empty(),
                    self@.labels,
                    Seq::<i64>::empty(),
                ),
                forall|a: int, b: int| 0 <= a < b < ids@.len() ==> ids@[a] != ids@[b],
                forall|a: int|
                    0 <= a < ids@.len() ==> has_label_id(self@.labels, #[trigger] ids@[a]),
            decreases n - i,
        {
            proof {
                assert(item@.labels.take(i + 1).drop_last() =~= item@.labels.take(i as int));
                assert(item@.labels.take(i + 1).last() == item@.labels[i as int]);
                assert(!Seq::<LabelModel>::empty().contains(item@.labels[i as int]));
            }
            match item.labels[i].id {
                Some(id) => {
                    if self.contains_label_id(id) && !ids_contain(&ids, id) {
                        ids.push(id);
                    }
                },
                None => {},
            }
            i += 1;
        }
        proof {
            assert(item@.labels.take(n as int) =~= item@.labels);
        }
        ids
    }

    /// The index of the stored item carrying this store identifier, if any.
    fn find_item_index_by_id(&self, id: i64) -> (r: Option<usize>)
        ensures
            match r {
                Some(j) => j < self@.items.len() && self@.items[j as int].id == id,
                None => !has_item_id(self@.items, id),
            },
    {
        let n = self.items.len();
        let mut i: usize = 0;
        while i < n
            invariant
                n == self.items@.len(),
                i <= n,
                forall|k: int| 0 <= k < i ==> self@.items[k].id != id,
            decreases n - i,
        {
            if self.items[i].id == id {
                return Some(i);
            }
            i += 1;
        }
        None
    }

    /// The label references the stored item at `j` carries after a diff
    /// against `existing` (what it carries now) and `new_labels` (what the
    /// caller wants): additions appended, then retractions applied.
    fn compute_label_ids(&self, j: usize, existing: &Vec<Label>, new_labels: &Vec<Label>) -> (r:
        Vec<i64>)
        requires
            store_wf(self@),
            j < self@.items.len(),
        ensures
            r@ == surviving_ids(
                ids_to_add(
                    labels_model(new_labels@),
                    labels_model(existing@),
                    self@.labels,
                    self@.items[j as int].label_ids,
                ),
                labels_model(existing@),
                labels_model(new_labels@),
            ),
            forall|a: int, b: int| 0 <= a < b < r@.len() ==> r@[a] != r@[b],
            forall|a: int| 0 <= a < r@.len() ==> has_label_id(self@.labels, #[trigger] r@[a]),
    {
        let mut ids: Vec<i64> = Vec::new();
        let base_n = self.items[j].label_ids.len();
        let mut a: usize = 0;
        while a < base_n
            invariant
                j < self@.items.len(),
                base_n == self@.items[j as int].label_ids.len(),
                a <= base_n,
                ids@ == self@.items[j as int].label_ids.take(a as int),
            decreases base_n - a,
        {
            ids.push(self.items[j].label_ids[a]);
            proof {
                assert(ids@ =~= self@.items[j as int].label_ids.take(a + 1));
            }
            a += 1;
        }
        proof {
            assert(ids@ =~= self@.items[j as int].label_ids);
            assert(item_links_wf(self@.items[j as int], self@.labels));
        }
        let n = new_labels.len();
        let mut i: usize = 0;
        while i < n
            invariant
                store_wf(self@),
                j < self@.items.len(),
                n == new_labels@.len(),
                i <= n,
                ids@ == ids_to_add(
                    labels_model(new_labels@).take(i as int),
                    labels_model(existing@),
                    self@.labels,
                    self@.items[j as int].label_ids,
                ),
                forall|p: int, q: int| 0 <= p < q < ids@.len() ==> ids@[p] != ids@[q],
                forall|p: int|
                    0 <= p < ids@.len() ==> has_label_id(self@.labels, #[trigger] ids@[p]),
            decreases n - i,
        {
            proof {
                assert(labels_model(new_labels@).take(i + 1).drop_last() =~= labels_model(
                    new_labels@,
                ).take(i as int));
                assert(labels_model(new_labels@).take(i + 1).last() == new_labels@[i as int]@);
            }
            match new_labels[i].id {
                Some(id) => {
                    if !labels_contain(existing, &new_labels[i]) && self.contains_label_id(id)
                        && !ids_contain(&ids, id) {
                        ids.push(id);
                    }
                },
                None => {},
            }
            i += 1;
        }
        proof {
            assert(labels_model(new_labels@).take(n as int) =~= labels_model(new_labels@));
        }
        let ghost added = ids@;
        let total = ids.len();
        let mut out: Vec<i64> = Vec::new();
        let mut b: usize = 0;
        while b < total
            invariant
                total == ids@.len(),
                b <= total,
                out@ == surviving_ids(
                    ids@.take(b as int),
                    labels_model(existing@),
                    labels_model(new_labels@),
                ),
            decreases total - b,
        {
            proof {
                assert(ids@.take(b + 1).drop_last() =~= ids@.take(b as int));
                assert(ids@.take(b + 1).last() == ids@[b as int]);
            }
            if !label_id_removed(ids[b], existing, new_labels) {
                out.push(ids[b]);
            }
            b += 1;
        }
        proof {
            assert(ids@.take(total as int) =~= ids@);
            lemma_surviving_subset(added, labels_model(existing@), labels_model(new_labels@));
            lemma_surviving_distinct(added, labels_model(existing@), labels_model(new_labels@));
            assert forall|p: int|
                0 <= p < out@.len() implies has_label_id(self@.labels, #[trigger] out@[p]) by {
                assert(added.contains(out@[p]));
                let w = choose|k: int| 0 <= k < added.len() && added[k] == out@[p];
                assert(has_label_id(self@.labels, added[w]));
            }
        }
        out
    }

    /// Applies a diff-based update to the stored item the snapshot's store
    /// identifier names. A field changes exactly when the caller's value
    /// differs from the snapshot, so an untouched field keeps its stored
    /// value; the label diff is taken against the labels the item carries
    /// now. Refused exactly when no stored item carries the identifier.
    pub fn update_item(
        &mut self,
        item: &Item,
        name: Option<String>,
        due_date: Option<i64>,
        completion_date: Option<i64>,
        labels: Option<&Vec<Label>>,
    ) -> (r: Result<(), StoreError>)
        requires
            store_wf(old(self)@),
            item@.id is Some,
        ensures
            store_wf(final(self)@),
            final(self)@.labels == old(self)@.labels,
            final(self)@.next_id == old(self)@.next_id,
            final(self)@.channel == old(self)@.channel,
            match r {
                Result::Ok(u) => has_item_id(old(self)@.items, item@.id->0) && {
                    let j = item_index_by_id(old(self)@.items, item@.id->0);
                    final(self)@.items == old(self)@.items.update(
                        j,
                        updated_stored_item(
                            old(self)@.items[j],
                            old(self)@,
                            item@,
                            match name {
                                Option::Some(nm) => Option::Some(nm@),
                                Option::None => Option::None,
                            },
                            due_date,
                            completion_date,
                            match labels {
                                Option::Some(v) => Option::Some(labels_model(v@)),
                                Option::None => Option::None,
                            },
                        ),
                    )
                },
                Result::Err(e) => e == StoreError::ItemNotFound && !has_item_id(
                    old(self)@.items,
                    item@.id->0,
                ) && final(self)@ == old(self)@,
            },
    {
        let item_id: i64 = match item.id {
            Some(x) => x,
            None => unreached(),
        };
        let j = match self.find_item_index_by_id(item_id) {
            Some(j) => j,
            None => {
                return Err(StoreError::ItemNotFound);
            },
        };
        proof {
            assert(has_item_id(self@.items, item_id)) by {
                assert(self@.items[j as int].id == item_id);
            };
            let c = item_index_by_id(self@.items, item_id);
            assert(0 <= c < self@.items.len() && self@.items[c].id == item_id);
            assert(c == j) by {
                if c < j as int {
                    assert(self@.items[c].id != self@.items[j as int].id);
                } else if (j as int) < c {
                    assert(self@.items[j as int].id != self@.items[c].id);
                }
            };
        }
        let existing: Vec<Label> = match self.fetch_labels_for_item(item.uuid) {
            Ok(v) => v,
            Err(_) => unreached(),
        };
        let new_ids: Option<Vec<i64>> = match labels {
            Some(nl) => Some(self.compute_label_ids(j, &existing, nl)),
            None => None,
        };
        let ghost name_model: Option<Seq<char>> = match &name {
            Option::Some(nm) => Option::Some(nm@),
            Option::None => Option::None,
        };
        match name {
            Some(nm) => {
                if !(nm == item.name) {
                    self.items[j].name = nm;
                }
            },
            None => {},
        }
        let due_differs = match (due_date, item.due_date) {
            (Some(a), Some(b)) => a != b,
            (None, None) => false,
            _ => true,
        };
        if due_differs {
            self.items[j].due_date = due_date;
        }
        let completion_differs = match (completion_date, item.completion_date) {
            (Some(a), Some(b)) => a != b,
            (None, None) => false,
            _ => true,
        };
        if completion_differs {
            self.items[j].completion_date = completion_date;
        }
        match new_ids {
            Some(ids) => {
                self.items[j].label_ids = ids;
            },
            None => {},
        }
        proof {
            let pre = old(self)@;
            let post = self@;
            let target = updated_stored_item(
                pre.items[j as int],
                pre,
                item@,
                name_model,
                due_date,
                completion_date,
                match labels {
                    Option::Some(v) => Option::Some(labels_model(v@)),
                    Option::None => Option::None,
                },
            );
            assert(post.items[j as int] == target);
            assert(post.items =~= pre.items.update(j as int, target));
            assert(forall|k: int|
                0 <= k < post.items.len() ==> (#[trigger] post.items[k]).id == pre.items[k].id
                    && post.items[k].uuid == pre.items[k].uuid);
            assert forall|k: int|
                0 <= k < post.items.len() implies item_links_wf(
                #[trigger] post.items[k],
                post.labels,
            ) by {
                assert(item_links_wf(pre.items[k], pre.labels));
            }
            assert(store_wf(post));
        }
        Ok(())
    }

    /// Decodes a three-column (identifier, UUID, name) item row, resolving
    /// the item's dates and labels from the store by the row's UUID. A short
    /// or ill-typed row yields no item, never a partial one.
    pub fn item_row_to_item(&self, row: &Vec<RowValue>) -> (r: Option<Item>)
        requires
            store_wf(self@),
        ensures
            match r {
                Some(it) => is_item_row(row_model(row@)) && it@ == (ItemModel {
                    id: Some(row_model(row@)[0]->Ref_0),
                    uuid: row_model(row@)[1]->Uuid_0,
                    name: row_model(row@)[2]->Text_0,
                    due_date: stored_due_date(self@, row_model(row@)[1]->Uuid_0),
                    completion_date: stored_completion_date(self@, row_model(row@)[1]->Uuid_0),
                    labels: existing_labels(self@, row_model(row@)[1]->Uuid_0),
                }),
                None => !is_item_row(row_model(row@)),
            },
    {
        if row.len() < 3 {
            return None;
        }
        let e: i64 = match &row[0] {
            RowValue::Ref(x) => *x,
            _ => {
                return None;
            },
        };
        let u: u128 = match &row[1] {
            RowValue::Uuid(x) => *x,
            _ => {
                return None;
            },
        };
        let nm: String = match &row[2] {
            RowValue::Text(s) => s.clone(),
            _ => {
                return None;
            },
        };
        match self.find_item_index_by_uuid(u) {
            Some(j) => {
                proof {
                    assert(has_item_uuid(self@.items, u)) by {
                        assert(self@.items[j as int].uuid == u);
                    };
                    let c = item_index_by_uuid(self@.items, u);
                    assert(0 <= c < self@.items.len() && self@.items[c].uuid == u);
                    assert(c == j);
                }
                let mat = self.materialize(j);
                Some(
                    Item {
                        id: Some(e),
                        uuid: u,
                        name: nm,
                        due_date: mat.due_date,
                        completion_date: mat.completion_date,
                        labels: mat.labels,
                    },
                )
            },
            None => {
                let labels: Vec<Label> = Vec::new();
                assert(labels_model(labels@) =~= existing_labels(self@, u));
                Some(
                    Item {
                        id: Some(e),
                        uuid: u,
                        name: nm,
                        due_date: None,
                        completion_date: None,
                        labels,
                    },
                )
            },
        }
    }

    /// Persists a new item under the given UUID: its name, dates, and the
    /// labels the store can link, under a fresh store identifier. Refused
    /// exactly when the UUID is already taken.
    pub fn create_item_with_uuid(&mut self, item: &Item, uuid: u128) -> (r: Result<
        u128,
        StoreError,
    >)
        requires
            store_wf(old(self)@),
            old(self)@.next_id < i64::MAX,
        ensures
            store_wf(final(self)@),
            match r {
                Result::Ok(u) => u == uuid && !has_item_uuid(old(self)@.items, uuid)
                    && final(self)@ == with_new_item(old(self)@, item@, uuid),
                Result::Err(e) => e == StoreError::UuidConflict && has_item_uuid(
                    old(self)@.items,
                    uuid,
                ) && final(self)@ == old(self)@,
            },
    {
        match self.find_item_index_by_uuid(uuid) {
            Some(j) => {
                proof {
                    assert(has_item_uuid(self@.items, uuid)) by {
                        assert(self@.items[j as int].uuid == uuid);
                    };
                }
                Err(StoreError::UuidConflict)
            },
            None => {
                let label_ids = self.linked_ids_for(item);
                let id = self.next_id;
                let s = StoredItem {
                    id,
                    uuid,
                    name: item.name.clone(),
                    due_date: item.due_date,
                    completion_date: item.completion_date,
                    label_ids,
                };
                self.items.push(s);
                self.next_id = id + 1;
                proof {
                    let pre = old(self)@;
                    let post = self@;
                    assert(post.items =~= pre.items.push(new_stored_item(pre, item@, uuid)));
                    assert(post == with_new_item(pre, item@, uuid));
                    lemma_has_label_id_monotone(pre.labels, post.labels);
                    lemma_links_preserved(pre.items, pre.labels, post.labels);
                    assert(store_wf(post));
                }
                Ok(uuid)
            },
        }
    }

    /// Creates an item under a freshly drawn UUID and yields that UUID.
    /// Creation is owed on an empty store, where no drawn UUID can collide.
    pub fn create_item(&mut self, item: &Item) -> (r: Result<u128, StoreError>)
        requires
            store_wf(old(self)@),
            old(self)@.next_id < i64::MAX,
        ensures
            store_wf(final(self)@),
            old(self)@.items.len() == 0 ==> r is Ok,
            match r {
                Result::Ok(u) => u != NIL_UUID && !has_item_uuid(old(self)@.items, u)
                    && final(self)@ == with_new_item(old(self)@, item@, u),
                Result::Err(e) => e == StoreError::UuidConflict && final(self)@ == old(self)@,
            },
    {
        let u = create_uuid();
        self.create_item_with_uuid(item, u)
    }

    /// Creates an item and fetches it back, dates and labels resolved, so
    /// the caller sees exactly what was persisted. Creation is owed on an
    /// empty store, where no drawn UUID can collide.
    pub fn create_and_fetch_item(&mut self, item: &Item) -> (r: Result<Option<Item>, StoreError>)
        requires
            store_wf(old(self)@),
            old(self)@.next_id < i64::MAX,
        ensures
            store_wf(final(self)@),
            old(self)@.items.len() == 0 ==> r is Ok,
            match r {
                Result::Ok(o) => o is Some && {
                    let it = o->0;
                    &&& it@.uuid != NIL_UUID
                    &&& !has_item_uuid(old(self)@.items, it@.uuid)
                    &&& final(self)@ == with_new_item(old(self)@, item@, it@.uuid)
                    &&& it@ == materialize_item(
                        final(self)@,
                        new_stored_item(old(self)@, item@, it@.uuid),
                    )
                },
                Result::Err(e) => e == StoreError::UuidConflict && final(self)@ == old(self)@,
            },
    {
        let u = match self.create_item(item) {
            Ok(u) => u,
            Err(e) => {
                return Err(e);
            },
        };
        proof {
            let m = self@;
            assert(m.items.last().uuid == u);
            assert(has_item_uuid(m.items, u)) by {
                assert(m.items[m.items.len() - 1].uuid == u);
            };
            let c = item_index_by_uuid(m.items, u);
            assert(0 <= c < m.items.len() && m.items[c].uuid == u);
            assert(c == m.items.len() - 1);
        }
        match self.fetch_item(u) {
            Ok(Some(it)) => Ok(Some(it)),
            Ok(None) => unreached(),
            Err(_) => unreached(),
        }
    }

    /// Fetches every stored label, in store order, as independent copies.
    pub fn fetch_labels(&self) -> (r: Result<Vec<Label>, StoreError>)
        ensures
            match r {
                Result::Ok(v) => labels_model(v@) == self@.labels,
                Result::Err(_) => false,
            },
    {
        let mut v: Vec<Label> = Vec::new();
        let n = self.labels.len();
        let mut i: usize = 0;
        while i < n
            invariant
                n == self.labels@.len(),
                i <= n,
                v@.len() == i,
                forall|k: int| 0 <= k < i ==> v@[k]@ == self@.labels[k],
            decreases n - i,
        {
            v.push(self.labels[i].clone());
            i += 1;
        }
        assert(labels_model(v@) =~= self@.labels);
        Ok(v)
    }
}

} // verus!
