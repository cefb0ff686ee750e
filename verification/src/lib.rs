//! An in-process todo store whose values cross a C-compatible boundary.
//!
//! Items carry optional due and completion dates (signed 64-bit second
//! counts), a name, a caller-visible UUID, and a set of labels. The library
//! verifies the three layers that make the boundary safe: the conversion
//! between domain values and their flat boundary mirrors, the ownership and
//! release protocol for every value handed across, and the change
//! notification channel that tells the caller its cached views are stale.

mod boundary;
mod channel;
mod ctypes;
mod errors;
mod items;
mod labels;
mod rows;
mod store;
mod uuids;

pub use boundary::all_items_entry;
pub use boundary::create_item_entry;
pub use boundary::create_label_entry;
pub use boundary::entry_item_model;
pub use boundary::get_all_items_entry;
pub use boundary::get_all_labels_entry;
pub use boundary::update_item_by_uuid_entry;
pub use boundary::update_item_entry;
pub use channel::ChangeChannel;

pub use ctypes::ItemC;
pub use ctypes::ItemCList;
pub use ctypes::ItemCListModel;
pub use ctypes::ItemCModel;
pub use ctypes::ItemsC;
pub use ctypes::LabelC;
pub use ctypes::MirrorRelease;
pub use ctypes::entry_at_model;
pub use ctypes::item_c_destroy;
pub use ctypes::item_of_mirror_model;
pub use ctypes::item_to_mirror_model;
pub use ctypes::items_to_mirror_model;
pub use ctypes::label_mirrors_model;
pub use ctypes::lemma_count_matches_addressable;
pub use ctypes::lemma_mirror_round_trip;
pub use ctypes::lemma_release_once;
pub use ctypes::mirrors_model;
pub use ctypes::release_outcome;
pub use ctypes::released_state;
pub use errors::BoundaryError;
pub use errors::StoreError;
pub use items::Item;
pub use items::ItemModel;
pub use items::Items;
pub use items::items_model;
pub use labels::Label;
pub use labels::LabelModel;
pub use labels::label_at;
pub use labels::labels_eq;
pub use labels::labels_model;
pub use rows::RowValue;
pub use rows::RowValueModel;
pub use rows::is_label_row;
pub use rows::label_of_row;
pub use rows::row_model;
pub use store::StoredItem;
pub use store::StoredItemModel;
pub use store::Toodle;
pub use store::ToodleModel;
pub use store::has_item_id;
pub use store::has_item_uuid;
pub use store::has_label_id;
pub use store::has_label_name;
pub use store::item_index_by_id;
pub use store::item_index_by_uuid;
pub use store::item_links_wf;
pub use store::label_index_by_id;
pub use store::label_index_by_name;
pub use store::label_with_id;
pub use store::existing_labels;
pub use store::ids_to_add;
pub use store::is_item_row;
pub use store::items_with_label;
pub use store::linked_label_ids;
pub use store::materialize_item;
pub use store::materialized_items;
pub use store::new_stored_item;
pub use store::removed_id;
pub use store::selected_items;
pub use store::store_wf;
pub use store::stored_completion_date;
pub use store::stored_due_date;
pub use store::stored_items_model;
pub use store::surviving_ids;
pub use store::updated_stored_item;
pub use store::with_new_item;
pub use uuids::NIL_UUID;
pub use uuids::create_uuid;
pub use uuids::parse_uuid;
pub use uuids::uuid_text_of;
pub use uuids::uuid_to_text;
pub use uuids::uuid_value_of;
