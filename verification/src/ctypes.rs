//! The boundary mirrors: flat shadows of the domain values.
//!
//! A mirror carries the same logical fields as its domain counterpart, but in
//! a shape that is safe to hand across the boundary: optional dates as
//! nullable signed 64-bit second counts, the UUID as its text form (absent
//! when the identifier is not yet known), and labels always carried along as
//! an embedded mirrored list. Conversion is total and panic-free in both
//! directions: an absent or unparsable UUID text degrades to the nil UUID
//! rather than failing the whole conversion.
//!
//! A boundary collection owns its elements until it is released exactly
//! once; element access hands out independently owned copies, so releasing
//! one element never invalidates the collection, nor the other way round.

use vstd::prelude::*;

use crate::errors::BoundaryError;
use crate::items::Item;
use crate::items::ItemModel;
use crate::items::Items;
use crate::items::items_model;
use crate::labels::Label;
use crate::labels::LabelModel;
use crate::uuids::NIL_UUID;
use crate::uuids::parse_uuid;
use crate::uuids::uuid_text_of;
use crate::uuids::uuid_to_text;
use crate::uuids::uuid_value_of;

verus! {

/// The boundary mirror of a label. Unlike an item, a label has no UUID, so
/// its store identifier rides along to keep two snapshots of the same label
/// interchangeable.
#[derive(Debug)]
pub struct LabelC {
    pub id: Option<i64>,
    pub name: String,
    pub color: String,
}

impl View for LabelC {
    type V = LabelModel;

    open spec fn view(&self) -> LabelModel {
        LabelModel { id: self.id, name: self.name@, color: self.color@ }
    }
}

impl Clone for LabelC {
    fn clone(&self) -> (r: LabelC)
        ensures
            r@ == self@,
    {
        LabelC { id: self.id, name: self.name.clone(), color: self.color.clone() }
    }
}

/// The mathematical value of an [`ItemC`].
pub ghost struct ItemCModel {
    pub uuid: Option<Seq<char>>,
    pub name: Seq<char>,
    pub due_date: Option<i64>,
    pub completion_date: Option<i64>,
    pub labels: Seq<LabelModel>,
}

/// The boundary mirror of an item: the UUID as owned text, the dates as
/// nullable second counts, and the label set as an embedded mirrored list.
#[derive(Debug)]
pub struct ItemC {
    pub uuid: Option<String>,
    pub name: String,
    pub due_date: Option<i64>,
    pub completion_date: Option<i64>,
    pub labels: Vec<LabelC>,
}

/// The mathematical value of a sequence of label mirrors.
pub open spec fn label_mirrors_model(v: Seq<LabelC>) -> Seq<LabelModel> {
    v.map_values(|l: LabelC| l@)
}

impl View for ItemC {
    type V = ItemCModel;

    open spec fn view(&self) -> ItemCModel {
        ItemCModel {
            uuid: match self.uuid {
                Option::Some(s) => Option::Some(s@),
                Option::None => Option::None,
            },
            name: self.name@,
            due_date: self.due_date,
            completion_date: self.completion_date,
            labels: label_mirrors_model(self.labels@),
        }
    }
}

impl Clone for ItemC {
    fn clone(&self) -> (r: ItemC)
        ensures
            r@ == self@,
    {
        let uuid: Option<String> = match &self.uuid {
            Some(s) => Some(s.clone()),
            None => None,
        };
        let mut labels: Vec<LabelC> = Vec::new();
        let n = self.labels.len();
        let mut i: usize = 0;
        while i < n
            invariant
                n == self.labels@.len(),
                i <= n,
                labels@.len() == i,
                forall|k: int| 0 <= k < i ==> labels@[k]@ == self.labels@[k]@,
            decreases n - i,
        {
            labels.push(self.labels[i].clone());
            i += 1;
        }
        let r = ItemC {
            uuid,
            name: self.name.clone(),
            due_date: self.due_date,
            completion_date: self.completion_date,
            labels,
        };
        assert(label_mirrors_model(r.labels@) =~= label_mirrors_model(self.labels@));
        r
    }
}

/// The mirror a domain item converts to.
pub open spec fn item_to_mirror_model(i: ItemModel) -> ItemCModel {
    ItemCModel {
        uuid: Option::Some(uuid_text_of(i.uuid)),
        name: i.name,
        due_date: i.due_date,
        completion_date: i.completion_date,
        labels: i.labels,
    }
}

/// The domain item a mirror converts back to. The store identifier is not
/// carried by an item mirror, and an absent or unparsable UUID text degrades
/// to the nil UUID.
pub open spec fn item_of_mirror_model(m: ItemCModel) -> ItemModel {
    ItemModel {
        id: Option::None,
        uuid: match m.uuid {
            Option::Some(s) => match uuid_value_of(s) {
                Option::Some(u) => u,
                Option::None => NIL_UUID,
            },
            Option::None => NIL_UUID,
        },
        name: m.name,
        due_date: m.due_date,
        completion_date: m.completion_date,
        labels: m.labels,
    }
}

impl Label {
    /// The boundary mirror of this label: an independent snapshot.
    pub fn to_mirror(&self) -> (r: LabelC)
        ensures
            r@ == self@,
    {
        LabelC { id: self.id, name: self.name.clone(), color: self.color.clone() }
    }
}

impl LabelC {
    /// The domain label this mirror stands for.
    pub fn to_label(&self) -> (r: Label)
        ensures
            r@ == self@,
    {
        Label { id: self.id, name: self.name.clone(), color: self.color.clone() }
    }
}

impl Item {
    /// Converts this item to its boundary mirror: the UUID as owned text,
    /// each optional date as a nullable second count, and every label
    /// mirrored along.
    pub fn to_mirror(&self) -> (r: ItemC)
        ensures
            r@ == item_to_mirror_model(self@),
    {
        let mut labels: Vec<LabelC> = Vec::new();
        let n = self.labels.len();
        let mut i: usize = 0;
        while i < n
            invariant
                n == self.labels@.len(),
                i <= n,
                labels@.len() == i,
                forall|k: int| 0 <= k < i ==> labels@[k]@ == self.labels@[k]@,
            decreases n - i,
        {
            labels.push(self.labels[i].to_mirror());
            i += 1;
        }
        let r = ItemC {
            uuid: Some(uuid_to_text(self.uuid)),
            name: self.name.clone(),
            due_date: self.due_date,
            completion_date: self.completion_date,
            labels,
        };
        assert(label_mirrors_model(r.labels@) =~= self@.labels);
        r
    }
}

impl ItemC {
    /// Converts this mirror back to a domain item. Never fails: an absent or
    /// unparsable UUID text yields the nil UUID, so a mirror built before
    /// persistence still converts cleanly.
    pub fn to_item(&self) -> (r: Item)
        ensures
            r@ == item_of_mirror_model(self@),
    {
        let uuid: u128 = match &self.uuid {
            Some(s) => match parse_uuid(s.as_str()) {
                Some(u) => u,
                None => NIL_UUID,
            },
            None => NIL_UUID,
        };
        let mut labels: Vec<Label> = Vec::new();
        let n = self.labels.len();
        let mut i: usize = 0;
        while i < n
            invariant
                n == self.labels@.len(),
                i <= n,
                labels@.len() == i,
                forall|k: int| 0 <= k < i ==> labels@[k]@ == self.labels@[k]@,
            decreases n - i,
        {
            labels.push(self.labels[i].to_label());
            i += 1;
        }
        let r = Item {
            id: None,
            uuid,
            name: self.name.clone(),
            due_date: self.due_date,
            completion_date: self.completion_date,
            labels,
        };
        assert(r@.labels =~= self@.labels);
        r
    }
}

/// The mathematical value of a sequence of item mirrors.
pub open spec fn mirrors_model(v: Seq<ItemC>) -> Seq<ItemCModel> {
    v.map_values(|m: ItemC| m@)
}

/// The mirrors a sequence of domain items converts to, element for element.
pub open spec fn items_to_mirror_model(items: Seq<ItemModel>) -> Seq<ItemCModel> {
    items.map_values(|i: ItemModel| item_to_mirror_model(i))
}

/// An intermediate collection of item mirrors with its explicit count.
#[derive(Debug)]
pub struct ItemsC {
    pub vec: Vec<ItemC>,
    pub len: usize,
}

impl ItemsC {
    pub fn new(vec: Vec<ItemC>) -> (r: ItemsC)
        ensures
            r.vec == vec,
            r.len == vec@.len(),
    {
        let len = vec.len();
        ItemsC { vec, len }
    }
}

impl Items {
    /// Converts every item to its mirror, preserving order and recording the
    /// exact count.
    pub fn to_mirror(&self) -> (r: ItemsC)
        ensures
            mirrors_model(r.vec@) == items_to_mirror_model(items_model(self.vec@)),
            r.len == self.vec@.len(),
    {
        let mut vec: Vec<ItemC> = Vec::new();
        let n = self.vec.len();
        let mut i: usize = 0;
        while i < n
            invariant
                n == self.vec@.len(),
                i <= n,
                vec@.len() == i,
                forall|k: int| 0 <= k < i ==> vec@[k]@ == item_to_mirror_model(self.vec@[k]@),
            decreases n - i,
        {
            vec.push(self.vec[i].to_mirror());
            i += 1;
        }
        let r = ItemsC::new(vec);
        assert(mirrors_model(r.vec@) =~= items_to_mirror_model(items_model(self.vec@)));
        r
    }
}

/// The mathematical value of an [`ItemCList`].
pub ghost struct ItemCListModel {
    pub items: Seq<ItemCModel>,
    pub released: bool,
}

/// The owned boundary collection of item mirrors. Once handed out it has
/// exactly one owner; it must be released exactly once, and a second release
/// is detected rather than freeing anything twice.
#[derive(Debug)]
pub struct ItemCList {
    pub items: Vec<ItemC>,
    pub len: usize,
    pub released: bool,
}

impl View for ItemCList {
    type V = ItemCListModel;

    open spec fn view(&self) -> ItemCListModel {
        ItemCListModel { items: mirrors_model(self.items@), released: self.released }
    }
}

/// What a release request against a collection in state `m` yields: the
/// number of element payloads freed (the container itself goes with them),
/// or a refusal when the collection was already released.
pub open spec fn release_outcome(m: ItemCListModel) -> Result<int, BoundaryError> {
    if m.released {
        Result::Err(BoundaryError::AlreadyReleased)
    } else {
        Result::Ok(m.items.len() as int)
    }
}

/// The state a successful release leaves behind: nothing addressable, and
/// the release recorded.
pub open spec fn released_state(m: ItemCListModel) -> ItemCListModel {
    ItemCListModel { items: Seq::empty(), released: true }
}

/// The element addressable at `index`, if any: exactly the indices below the
/// element count are addressable.
pub open spec fn entry_at_model(m: ItemCListModel, index: int) -> Option<ItemCModel> {
    if 0 <= index < m.items.len() {
        Option::Some(m.items[index])
    } else {
        Option::None
    }
}

impl ItemCList {
    /// The count field is the element count; a released collection holds
    /// nothing.
    pub open spec fn wf(&self) -> bool {
        &&& self.len == self.items@.len()
        &&& self.released ==> self.items@.len() == 0
    }

    /// Wraps a vector of mirrors as an owned, unreleased collection.
    pub fn new(items: Vec<ItemC>) -> (r: ItemCList)
        ensures
            r.wf(),
            r@ == (ItemCListModel { items: mirrors_model(items@), released: false }),
    {
        let len = items.len();
        ItemCList { items, len, released: false }
    }

    /// The explicit element count, never inferred from a sentinel.
    pub fn count(&self) -> (r: usize)
        requires
            self.wf(),
        ensures
            r == self@.items.len(),
    {
        self.len
    }

    /// An independently owned copy of the element at `index`; nothing when
    /// the index is at or past the count.
    pub fn entry_at(&self, index: usize) -> (r: Option<ItemC>)
        requires
            self.wf(),
        ensures
            match r {
                Some(m) => entry_at_model(self@, index as int) == Option::Some(m@),
                None => entry_at_model(self@, index as int) is None,
            },
    {
        if index < self.items.len() {
            Some(self.items[index].clone())
        } else {
            None
        }
    }

    /// Releases the collection: frees every element payload and the
    /// container itself exactly once. A second release is refused.
    pub fn release(&mut self) -> (r: Result<usize, BoundaryError>)
        requires
            old(self).wf(),
        ensures
            final(self).wf(),
            match r {
                Result::Ok(n) => release_outcome(old(self)@) == Result::Ok::<int, BoundaryError>(
                    n as int,
                ) && final(self)@ == released_state(old(self)@),
                Result::Err(e) => release_outcome(old(self)@) == Result::Err::<
                    int,
                    BoundaryError,
                >(e) && final(self)@ == old(self)@,
            },
    {
        if self.released {
            return Err(BoundaryError::AlreadyReleased);
        }
        let n = self.len;
        self.items = Vec::new();
        self.len = 0;
        self.released = true;
        assert(self@.items =~= released_state(old(self)@).items);
        Ok(n)
    }
}

/// What releasing one item mirror freed: each owned buffer and box of the
/// mirror, exactly once. The label count stands for the mirrored label
/// payloads, two owned text buffers each.
pub struct MirrorRelease {
    pub uuid_buffer: bool,
    pub name_buffer: bool,
    pub due_box: bool,
    pub completion_box: bool,
    pub labels_freed: usize,
}

/// Releases one item mirror, reversing exactly the allocations its
/// construction performed: the UUID text if present, the name buffer, each
/// present date box, and every mirrored label. Taking the mirror by value
/// makes a second release of the same mirror impossible by construction, and
/// the collection an element was copied out of is unaffected.
pub fn item_c_destroy(item: ItemC) -> (r: MirrorRelease)
    ensures
        r.uuid_buffer == item@.uuid.is_some(),
        r.name_buffer,
        r.due_box == item@.due_date.is_some(),
        r.completion_box == item@.completion_date.is_some(),
        r.labels_freed == item@.labels.len(),
{
    MirrorRelease {
        uuid_buffer: item.uuid.is_some(),
        name_buffer: true,
        due_box: item.due_date.is_some(),
        completion_box: item.completion_date.is_some(),
        labels_freed: item.labels.len(),
    }
}

/// Releasing a collection of N elements frees exactly its N element payloads
/// and the container once; releasing the same collection a second time is
/// refused instead of freeing anything again.
pub proof fn lemma_release_once(m: ItemCListModel)
    requires
        !m.released,
    ensures
        release_outcome(m) == Result::Ok::<int, BoundaryError>(m.items.len() as int),
        released_state(m).items.len() == 0,
        release_outcome(released_state(m)) == Result::Err::<int, BoundaryError>(
            BoundaryError::AlreadyReleased,
        ),
{
}

/// The element count always equals the number of indices at which an element
/// is addressable: every index below the count is addressable, and any index
/// at or past the count is refused.
pub proof fn lemma_count_matches_addressable(m: ItemCListModel)
    ensures
        forall|i: int| 0 <= i < m.items.len() ==> entry_at_model(m, i) is Some,
        forall|i: int| i >= m.items.len() || i < 0 ==> entry_at_model(m, i) is None,
{
}

/// Converting an item to its boundary mirror and back preserves the name,
/// the due date (to the second), the completion date (to the second), and
/// label set membership.
pub proof fn lemma_mirror_round_trip(i: ItemModel)
    requires
        i.labels.len() > 0,
    ensures
        item_of_mirror_model(item_to_mirror_model(i)).name == i.name,
        item_of_mirror_model(item_to_mirror_model(i)).due_date == i.due_date,
        item_of_mirror_model(item_to_mirror_model(i)).completion_date == i.completion_date,
        forall|l: LabelModel|
            item_of_mirror_model(item_to_mirror_model(i)).labels.contains(l) <==> i.labels.contains(
                l,
            ),
{
}

} // verus!
