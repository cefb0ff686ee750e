use toodle::BoundaryError;
use toodle::Item;
use toodle::Label;
use toodle::RowValue;
use toodle::StoreError;
use toodle::Toodle;
use toodle::all_items_entry;
use toodle::create_item_entry;
use toodle::create_label_entry;
use toodle::create_uuid;
use toodle::get_all_items_entry;
use toodle::get_all_labels_entry;
use toodle::item_c_destroy;
use toodle::label_at;
use toodle::parse_uuid;
use toodle::update_item_by_uuid_entry;
use toodle::update_item_entry;
use toodle::uuid_to_text;

fn toodle() -> Toodle {
    Toodle::new(String::new()).expect("Expected a Toodle")
}

#[test]
fn mirror_round_trip_preserves_fields() {
    let mut manager = toodle();
    let work = create_label_entry(&mut manager, "work".to_string(), "#ff0000".to_string())
        .expect("expected a label");
    let item = Item {
        id: Some(7),
        uuid: 0x550e8400e29b41d4a716446655440000,
        name: "buy milk".to_string(),
        due_date: Some(1700000000),
        completion_date: None,
        labels: vec![work.clone()],
    };
    let mirror = item.to_mirror();
    assert_eq!(mirror.name, "buy milk".to_string());
    assert_eq!(mirror.due_date, Some(1700000000));
    assert_eq!(mirror.completion_date, None);
    assert_eq!(mirror.labels.len(), 1);
    assert_eq!(mirror.labels[0].name, "work".to_string());
    assert_eq!(mirror.labels[0].color, "#ff0000".to_string());
    let back = mirror.to_item();
    assert_eq!(back.name, item.name);
    assert_eq!(back.due_date, item.due_date);
    assert_eq!(back.completion_date, item.completion_date);
    assert_eq!(back.labels, item.labels);
    assert_eq!(back.uuid, item.uuid);
    assert_eq!(back.id, None);
}

#[test]
fn mirror_of_unpersisted_uuid_degrades_to_nil() {
    let mirror = toodle::ItemC {
        uuid: Some("not a uuid".to_string()),
        name: "x".to_string(),
        due_date: None,
        completion_date: None,
        labels: vec![],
    };
    assert_eq!(mirror.to_item().uuid, 0);
    let absent = toodle::ItemC {
        uuid: None,
        name: "x".to_string(),
        due_date: None,
        completion_date: None,
        labels: vec![],
    };
    assert_eq!(absent.to_item().uuid, 0);
}

#[test]
fn release_frees_each_element_once_and_detects_a_second_release() {
    let mut manager = toodle();
    for name in ["a", "b", "c"] {
        let (mirror, _) = create_item_entry(&mut manager, name.to_string(), None);
        assert!(mirror.is_some());
    }
    let mut list = get_all_items_entry(&manager);
    assert_eq!(list.count(), 3);
    assert_eq!(list.release(), Ok(3));
    assert_eq!(list.count(), 0);
    assert_eq!(list.release(), Err(BoundaryError::AlreadyReleased));
}

#[test]
fn collection_count_matches_addressable_elements() {
    let mut manager = toodle();
    let (first, _) = create_item_entry(&mut manager, "one".to_string(), None);
    assert!(first.is_some());
    let (second, _) = create_item_entry(&mut manager, "two".to_string(), None);
    assert!(second.is_some());
    let list = get_all_items_entry(&manager);
    assert_eq!(list.count(), 2);
    assert!(list.entry_at(0).is_some());
    assert!(list.entry_at(1).is_some());
    assert!(list.entry_at(2).is_none());
    assert_eq!(list.entry_at(0).unwrap().name, "one".to_string());
    assert_eq!(list.entry_at(1).unwrap().name, "two".to_string());
}

#[test]
fn created_item_lists_with_its_label() {
    let mut manager = toodle();
    let work = create_label_entry(&mut manager, "work".to_string(), "#ff0000".to_string())
        .expect("expected a label");
    let request = Item {
        id: None,
        uuid: 0,
        name: "buy milk".to_string(),
        due_date: None,
        completion_date: None,
        labels: vec![work],
    };
    let created = manager
        .create_and_fetch_item(&request)
        .expect("expected an item option")
        .expect("expected an item");
    assert_eq!(created.name, "buy milk".to_string());

    let all = manager.fetch_items().expect("expected items");
    assert_eq!(all.vec.len(), 1);
    assert_eq!(all.vec[0].name, "buy milk".to_string());
    assert_eq!(all.vec[0].labels.len(), 1);
    assert_eq!(all.vec[0].labels[0].name, "work".to_string());
    assert_eq!(all.vec[0].labels[0].color, "#ff0000".to_string());

    let list = all_items_entry(&manager).expect("expected a collection");
    assert_eq!(list.count(), 1);
    let mirror = list.entry_at(0).expect("expected an element");
    assert_eq!(mirror.name, "buy milk".to_string());
    assert_eq!(mirror.labels.len(), 1);
    assert_eq!(mirror.labels[0].name, "work".to_string());
}

#[test]
fn update_changing_only_the_name_keeps_dates_and_labels() {
    let mut manager = toodle();
    let work = create_label_entry(&mut manager, "work".to_string(), "#ff0000".to_string())
        .expect("expected a label");
    let request = Item {
        id: None,
        uuid: 0,
        name: "buy milk".to_string(),
        due_date: Some(1700000000),
        completion_date: Some(1700009999),
        labels: vec![work],
    };
    let created = manager
        .create_and_fetch_item(&request)
        .expect("expected an item option")
        .expect("expected an item");

    let fire = update_item_entry(
        &mut manager,
        &created,
        "buy oat milk".to_string(),
        created.due_date,
        created.completion_date,
        &created.labels,
    );
    assert!(!fire);

    let fetched = manager
        .fetch_item(created.uuid)
        .expect("expected an item option")
        .expect("expected an item");
    assert_eq!(fetched.name, "buy oat milk".to_string());
    assert_eq!(fetched.due_date, created.due_date);
    assert_eq!(fetched.completion_date, created.completion_date);
    assert_eq!(fetched.labels, created.labels);
}

#[test]
fn callback_fires_once_at_registration_and_once_per_mutation() {
    let mut manager = toodle();
    assert_eq!(manager.change_notifications(), 0);
    assert!(!manager.change_callback_registered());

    let fire = manager.register_change_callback();
    assert!(fire);
    assert!(manager.change_callback_registered());
    assert_eq!(manager.change_notifications(), 1);

    let (mirror, fire) = create_item_entry(&mut manager, "buy milk".to_string(), None);
    assert!(mirror.is_some());
    assert!(fire);
    assert_eq!(manager.change_notifications(), 2);
}

#[test]
fn callback_not_registered_means_no_fire() {
    let mut manager = toodle();
    let (mirror, fire) = create_item_entry(&mut manager, "quiet".to_string(), None);
    assert!(mirror.is_some());
    assert!(!fire);
    assert_eq!(manager.change_notifications(), 0);
}

#[test]
fn reregistration_replaces_and_confirms_again() {
    let mut manager = toodle();
    assert!(manager.register_change_callback());
    assert!(manager.register_change_callback());
    assert!(manager.change_callback_registered());
    assert_eq!(manager.change_notifications(), 2);
}

#[test]
fn label_creation_is_not_wired_to_the_channel() {
    let mut manager = toodle();
    assert!(manager.register_change_callback());
    let label = create_label_entry(&mut manager, "work".to_string(), "#ff0000".to_string());
    assert!(label.is_some());
    assert_eq!(manager.change_notifications(), 1);
}

#[test]
fn due_date_round_trips_through_the_mirror() {
    let mut manager = toodle();
    let (mirror, _) = create_item_entry(&mut manager, "with due".to_string(), Some(1700000000));
    let mirror = mirror.expect("expected a mirror");
    assert_eq!(mirror.due_date, Some(1700000000));

    let (mirror, _) = create_item_entry(&mut manager, "without due".to_string(), None);
    let mirror = mirror.expect("expected a mirror");
    assert_eq!(mirror.due_date, None);
}

#[test]
fn update_by_uuid_keeps_labels_and_fires() {
    let mut manager = toodle();
    let work = create_label_entry(&mut manager, "work".to_string(), "#ff0000".to_string())
        .expect("expected a label");
    let request = Item {
        id: None,
        uuid: 0,
        name: "old".to_string(),
        due_date: None,
        completion_date: None,
        labels: vec![work],
    };
    let created = manager
        .create_and_fetch_item(&request)
        .expect("expected an item option")
        .expect("expected an item");
    assert!(manager.register_change_callback());

    let fire = update_item_by_uuid_entry(
        &mut manager,
        created.uuid,
        "new".to_string(),
        Some(1700000000),
        None,
    );
    assert!(fire);
    assert_eq!(manager.change_notifications(), 2);

    let fetched = manager
        .fetch_item(created.uuid)
        .expect("expected an item option")
        .expect("expected an item");
    assert_eq!(fetched.name, "new".to_string());
    assert_eq!(fetched.due_date, Some(1700000000));
    assert_eq!(fetched.labels, created.labels);

    let fire = update_item_by_uuid_entry(&mut manager, 0, "x".to_string(), None, None);
    assert!(!fire);
}

#[test]
fn create_item_with_taken_uuid_is_a_conflict() {
    let mut manager = toodle();
    let request = Item {
        id: None,
        uuid: 0,
        name: "first".to_string(),
        due_date: None,
        completion_date: None,
        labels: vec![],
    };
    let uuid = create_uuid();
    assert_eq!(manager.create_item_with_uuid(&request, uuid), Ok(uuid));
    assert_eq!(manager.create_item_with_uuid(&request, uuid), Err(StoreError::UuidConflict));
}

#[test]
fn update_of_unknown_item_is_refused() {
    let mut manager = toodle();
    let stale = Item {
        id: Some(12345),
        uuid: 0,
        name: "ghostly".to_string(),
        due_date: None,
        completion_date: None,
        labels: vec![],
    };
    let r = manager.update_item(&stale, Some("renamed".to_string()), None, None, None);
    assert_eq!(r, Err(StoreError::ItemNotFound));
}

#[test]
fn error_messages_name_the_failure() {
    assert_eq!(StoreError::UuidConflict.message(), "a drawn uuid is already in use");
    assert_eq!(StoreError::ItemNotFound.message(), "no stored item carries this id");
}

#[test]
fn item_mirror_release_reports_every_allocation() {
    let work = Label { id: Some(1), name: "work".to_string(), color: "#ff0000".to_string() };
    let item = Item {
        id: None,
        uuid: 0x1234,
        name: "buy milk".to_string(),
        due_date: Some(1700000000),
        completion_date: None,
        labels: vec![work],
    };
    let freed = item_c_destroy(item.to_mirror());
    assert!(freed.uuid_buffer);
    assert!(freed.name_buffer);
    assert!(freed.due_box);
    assert!(!freed.completion_box);
    assert_eq!(freed.labels_freed, 1);
}

#[test]
fn label_access_is_bounds_checked() {
    let labels = vec![
        Label { id: Some(1), name: "a".to_string(), color: "#000000".to_string() },
        Label { id: Some(2), name: "b".to_string(), color: "#ffffff".to_string() },
    ];
    assert_eq!(label_at(&labels, 0).unwrap().name, "a".to_string());
    assert_eq!(label_at(&labels, 1).unwrap().name, "b".to_string());
    assert!(label_at(&labels, 2).is_none());
}

#[test]
fn uuid_text_is_hyphenated_and_parses_back() {
    let nil_text = uuid_to_text(0);
    assert_eq!(nil_text, "00000000-0000-0000-0000-000000000000".to_string());
    assert_eq!(
        parse_uuid("550e8400-e29b-41d4-a716-446655440000"),
        Some(0x550e8400e29b41d4a716446655440000)
    );
    assert_eq!(parse_uuid("not a uuid"), None);
    let drawn = create_uuid();
    assert!(drawn != 0);
    assert_eq!(parse_uuid(&uuid_to_text(drawn)), Some(drawn));
}

#[test]
fn label_from_row_decodes_only_well_shaped_rows() {
    let row = vec![
        RowValue::Ref(17),
        RowValue::Text("work".to_string()),
        RowValue::Text("#ff0000".to_string()),
    ];
    let label = Label::from_row(&row).expect("expected a label");
    assert_eq!(label.id, Some(17));
    assert_eq!(label.name, "work".to_string());
    assert_eq!(label.color, "#ff0000".to_string());

    let short = vec![RowValue::Ref(17), RowValue::Text("work".to_string())];
    assert_eq!(Label::from_row(&short), None);

    let ill_typed = vec![
        RowValue::Text("work".to_string()),
        RowValue::Text("work".to_string()),
        RowValue::Text("#ff0000".to_string()),
    ];
    assert_eq!(Label::from_row(&ill_typed), None);
}

#[test]
fn item_row_resolves_dates_and_labels_from_the_store() {
    let mut manager = toodle();
    let work = create_label_entry(&mut manager, "work".to_string(), "#ff0000".to_string())
        .expect("expected a label");
    let request = Item {
        id: None,
        uuid: 0,
        name: "buy milk".to_string(),
        due_date: Some(1700000000),
        completion_date: None,
        labels: vec![work],
    };
    let created = manager
        .create_and_fetch_item(&request)
        .expect("expected an item option")
        .expect("expected an item");

    let row = vec![
        RowValue::Ref(created.id.unwrap()),
        RowValue::Uuid(created.uuid),
        RowValue::Text("buy milk".to_string()),
    ];
    let decoded = manager.item_row_to_item(&row).expect("expected an item");
    assert_eq!(decoded, created);

    let short = vec![RowValue::Ref(1)];
    assert_eq!(manager.item_row_to_item(&short), None);
}

#[test]
fn all_items_entry_is_null_when_empty() {
    let mut manager = toodle();
    assert!(all_items_entry(&manager).is_none());
    let (mirror, _) = create_item_entry(&mut manager, "x".to_string(), None);
    assert!(mirror.is_some());
    assert!(all_items_entry(&manager).is_some());
}

#[test]
fn labels_list_entry_returns_all_labels() {
    let mut manager = toodle();
    assert!(get_all_labels_entry(&manager).is_empty());
    create_label_entry(&mut manager, "work".to_string(), "#ff0000".to_string());
    create_label_entry(&mut manager, "home".to_string(), "#00ff00".to_string());
    let labels = get_all_labels_entry(&manager);
    assert_eq!(labels.len(), 2);
    assert_eq!(labels[0].name, "work".to_string());
    assert_eq!(labels[1].name, "home".to_string());
}

#[test]
fn recoloring_a_label_recolors_it_for_every_item() {
    let mut manager = toodle();
    let work = create_label_entry(&mut manager, "work".to_string(), "#ff0000".to_string())
        .expect("expected a label");
    let request = Item {
        id: None,
        uuid: 0,
        name: "buy milk".to_string(),
        due_date: None,
        completion_date: None,
        labels: vec![work.clone()],
    };
    let created = manager
        .create_and_fetch_item(&request)
        .expect("expected an item option")
        .expect("expected an item");

    let recolored = create_label_entry(&mut manager, "work".to_string(), "#0000ff".to_string())
        .expect("expected a label");
    assert_eq!(recolored.id, work.id);
    assert_eq!(recolored.color, "#0000ff".to_string());

    let fetched = manager
        .fetch_item(created.uuid)
        .expect("expected an item option")
        .expect("expected an item");
    assert_eq!(fetched.labels.len(), 1);
    assert_eq!(fetched.labels[0].color, "#0000ff".to_string());
}
