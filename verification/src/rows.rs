//! Typed query-result rows and their tolerant decoding.
//!
//! A row is a sequence of typed values as a datalog query hands them back.
//! Decoding never yields a partial or garbage value: a row that is too short
//! or holds the wrong types decodes to nothing.

use vstd::prelude::*;

use crate::labels::Label;
use crate::labels::LabelModel;

verus! {

/// One typed value of a query-result row.
#[derive(Debug)]
pub enum RowValue {
    /// A store entity identifier.
    Ref(i64),
    /// A text value.
    Text(String),
    /// An instant, as a signed 64-bit second count.
    Instant(i64),
    /// A 128-bit UUID.
    Uuid(u128),
}

/// The mathematical value of a [`RowValue`].
pub ghost enum RowValueModel {
    Ref(i64),
    Text(Seq<char>),
    Instant(i64),
    Uuid(u128),
}

impl View for RowValue {
    type V = RowValueModel;

    open spec fn view(&self) -> RowValueModel {
        match self {
            RowValue::Ref(e) => RowValueModel::Ref(*e),
            RowValue::Text(s) => RowValueModel::Text(s@),
            RowValue::Instant(t) => RowValueModel::Instant(*t),
            RowValue::Uuid(u) => RowValueModel::Uuid(*u),
        }
    }
}

/// The mathematical value of a row.
pub open spec fn row_model(row: Seq<RowValue>) -> Seq<RowValueModel> {
    row.map_values(|v: RowValue| v@)
}

/// Whether the first three columns of a row are an identifier, a name and a
/// color, as a label query yields them.
pub open spec fn is_label_row(row: Seq<RowValueModel>) -> bool {
    &&& row.len() >= 3
    &&& row[0] is Ref
    &&& row[1] is Text
    &&& row[2] is Text
}

/// The label a well-shaped row decodes to.
pub open spec fn label_of_row(row: Seq<RowValueModel>) -> LabelModel
    recommends
        is_label_row(row),
{
    LabelModel {
        id: Some(row[0]->Ref_0),
        name: row[1]->Text_0,
        color: row[2]->Text_0,
    }
}

impl Label {
    /// Decodes a three-column (identifier, name, color) row into a label.
    /// A short or ill-typed row yields no label, never a partial one.
    pub fn from_row(row: &Vec<RowValue>) -> (r: Option<Label>)
        ensures
            match r {
                Some(l) => is_label_row(row_model(row@)) && l@ == label_of_row(row_model(row@)),
                None => !is_label_row(row_model(row@)),
            },
    {
        if row.len() < 3 {
            return None;
        }
        let id: i64 = match &row[0] {
            RowValue::Ref(e) => *e,
            _ => {
                return None;
            },
        };
        let name: String = match &row[1] {
            RowValue::Text(s) => s.clone(),
            _ => {
                return None;
            },
        };
        let color: String = match &row[2] {
            RowValue::Text(s) => s.clone(),
            _ => {
                return None;
            },
        };
        Some(Label { id: Some(id), name, color })
    }
}

} // verus!
