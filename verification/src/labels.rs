//! Labels: named, colored tags shared by many items.
//!
//! A label compares equal only on its store identifier, name and color; two
//! snapshots of the same label are interchangeable for equality but
//! independently owned once copied across the boundary.

use vstd::prelude::*;

verus! {

/// The mathematical value of a [`Label`].
pub ghost struct LabelModel {
    pub id: Option<i64>,
    pub name: Seq<char>,
    pub color: Seq<char>,
}

/// A tag with a unique name and a color. The store-assigned identifier is
/// absent until the label has been persisted.
#[derive(Debug)]
pub struct Label {
    pub id: Option<i64>,
    pub name: String,
    pub color: String,
}

impl View for Label {
    type V = LabelModel;

    open spec fn view(&self) -> LabelModel {
        LabelModel { id: self.id, name: self.name@, color: self.color@ }
    }
}

impl Clone for Label {
    fn clone(&self) -> (r: Label)
        ensures
            r == *self,
    {
        Label { id: self.id, name: self.name.clone(), color: self.color.clone() }
    }
}

impl PartialEq for Label {
    fn eq(&self, other: &Label) -> (r: bool) {
        let ids_match = match (self.id, other.id) {
            (Some(a), Some(b)) => a == b,
            (None, None) => true,
            _ => false,
        };
        ids_match && self.name == other.name && self.color == other.color
    }
}

impl vstd::std_specs::cmp::PartialEqSpecImpl for Label {
    open spec fn obeys_eq_spec() -> bool {
        true
    }

    open spec fn eq_spec(&self, other: &Label) -> bool {
        self@ == other@
    }
}

/// The mathematical value of a sequence of labels.
pub open spec fn labels_model(v: Seq<Label>) -> Seq<LabelModel> {
    v.map_values(|l: Label| l@)
}

/// Whether two label vectors hold the same labels in the same order.
pub fn labels_eq(a: &Vec<Label>, b: &Vec<Label>) -> (r: bool)
    ensures
        r == (labels_model(a@) == labels_model(b@)),
{
    if a.len() != b.len() {
        assert(labels_model(a@).len() != labels_model(b@).len());
        return false;
    }
    let n = a.len();
    let mut i: usize = 0;
    while i < n
        invariant
            n == a@.len(),
            n == b@.len(),
            i <= n,
            forall|k: int| 0 <= k < i ==> labels_model(a@)[k] == labels_model(b@)[k],
        decreases n - i,
    {
        if !(a[i] == b[i]) {
            assert(labels_model(a@)[i as int] != labels_model(b@)[i as int]);
            return false;
        }
        i += 1;
    }
    assert(labels_model(a@) =~= labels_model(b@));
    true
}

/// Whether a label vector holds this label (by identifier, name and color).
pub fn labels_contain(v: &Vec<Label>, l: &Label) -> (r: bool)
    ensures
        r == labels_model(v@).contains(l@),
{
    let n = v.len();
    let mut i: usize = 0;
    while i < n
        invariant
            n == v@.len(),
            i <= n,
            forall|k: int| 0 <= k < i ==> labels_model(v@)[k] != l@,
        decreases n - i,
    {
        if v[i] == *l {
            assert(labels_model(v@).contains(l@)) by {
                assert(labels_model(v@)[i as int] == l@);
            };
            return true;
        }
        i += 1;
    }
    false
}

/// A bounds-checked view into a label list: an independently owned copy of
/// the label at `index`, or nothing when the index is out of range.
pub fn label_at(labels: &Vec<Label>, index: usize) -> (r: Option<Label>)
    ensures
        match r {
            Some(l) => index < labels@.len() && l@ == labels@[index as int]@,
            None => index >= labels@.len(),
        },
{
    if index < labels.len() {
        Some(labels[index].clone())
    } else {
        None
    }
}

} // verus!
