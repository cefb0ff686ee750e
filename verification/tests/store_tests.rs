use toodle::Item;
use toodle::Label;
use toodle::Toodle;
use toodle::create_uuid;
use toodle::parse_uuid;
use toodle::uuid_to_text;

fn toodle() -> Toodle {
    Toodle::new(String::new()).expect("Expected a Toodle")
}

#[test]
fn test_create_label() {
    let mut manager = toodle();
    let name = "test".to_string();
    let color = "#000000".to_string();

    let label = manager.create_label(name.clone(), color.clone()).expect(
        "expected a label option",
    );
    assert!(label.is_some());
    let label = label.unwrap();
    assert!(label.id.is_some());
    assert_eq!(label.name, name);
    assert_eq!(label.color, color);
}

#[test]
fn test_fetch_label() {
    let mut manager = toodle();
    let created_label = manager
        .create_label("test".to_string(), "#000000".to_string())
        .expect("expected a label option")
        .expect("Expected a label");
    let fetched_label = manager
        .fetch_label(&created_label.name)
        .expect("expected a label option")
        .expect("expected a label");
    assert_eq!(fetched_label, created_label);

    let fetched_label =
        manager.fetch_label(&"doesn't exist".to_string()).expect("expected a label option");
    assert_eq!(fetched_label, None);
}

#[test]
fn test_fetch_labels() {
    let mut manager = toodle();

    let labels = ["label1".to_string(), "label2".to_string(), "label3".to_string()];
    for label in labels.iter() {
        let _ = manager
            .create_label(label.clone(), "#000000".to_string())
            .expect("expected a label option");
    }
    let fetched_labels = manager.fetch_labels().expect("expected a vector of labels");
    assert_eq!(fetched_labels.len(), labels.len());
    for label in fetched_labels.iter() {
        assert!(labels.contains(&label.name));
    }
}

#[test]
fn test_create_item() {
    let mut manager = toodle();
    let label = manager
        .create_label("label1".to_string(), "#000000".to_string())
        .expect("expected a label option")
        .unwrap();
    let label2 = manager
        .create_label("label2".to_string(), "#000000".to_string())
        .expect("expected a label option")
        .unwrap();

    let date: i64 = 1700000000;
    let i = Item {
        id: None,
        uuid: 0,
        name: "test item".to_string(),
        due_date: Some(date),
        completion_date: Some(date),
        labels: vec![label, label2],
    };

    let item = manager
        .create_and_fetch_item(&i)
        .expect("expected an item option")
        .expect("expected an item");
    assert!(item.uuid != 0);
    assert_eq!(item.name, i.name);
    let due_date = item.due_date.expect("expecting a due date");
    assert_eq!(due_date, date);
    let completion_date = item.completion_date.expect("expecting a completion date");
    assert_eq!(completion_date, date);
    assert_eq!(item.labels, i.labels);
}

#[test]
fn test_create_item_no_due_date() {
    let mut manager = toodle();
    let l = Label { id: None, name: "label1".to_string(), color: "#000000".to_string() };
    let label = manager
        .create_label(l.name.clone(), l.color.clone())
        .expect("expected a label option")
        .unwrap();

    let l2 = Label { id: None, name: "label2".to_string(), color: "#000000".to_string() };
    let label2 = manager
        .create_label(l2.name.clone(), l2.color.clone())
        .expect("expected an item option")
        .unwrap();

    let date: i64 = 1700000000;
    let i = Item {
        id: None,
        uuid: 0,
        name: "test item".to_string(),
        due_date: None,
        completion_date: Some(date),
        labels: vec![label, label2],
    };

    let item = manager
        .create_and_fetch_item(&i)
        .expect("expected an item option")
        .expect("expected an item");
    assert!(item.uuid != 0);
    assert_eq!(item.name, i.name);
    assert_eq!(item.due_date, i.due_date);
    let completion_date = item.completion_date.expect("expecting a completion date");
    assert_eq!(completion_date, date);
    assert_eq!(item.labels, i.labels);
}

#[test]
fn test_create_item_no_completion_date() {
    let mut manager = toodle();
    let l = Label { id: None, name: "label1".to_string(), color: "#000000".to_string() };
    let label = manager
        .create_label(l.name.clone(), l.color.clone())
        .expect("expected a label option")
        .unwrap();

    let l2 = Label { id: None, name: "label2".to_string(), color: "#000000".to_string() };
    let label2 = manager
        .create_label(l2.name.clone(), l2.color.clone())
        .expect("expected a label option")
        .unwrap();

    let date: i64 = 1700000000;
    let i = Item {
        id: None,
        uuid: 0,
        name: "test item".to_string(),
        due_date: Some(date),
        completion_date: None,
        labels: vec![label, label2],
    };

    let item = manager
        .create_and_fetch_item(&i)
        .expect("expected an item option")
        .expect("expected an item");
    assert!(item.uuid != 0);
    assert_eq!(item.name, i.name);
    let due_date = item.due_date.expect("expecting a due date");
    assert_eq!(due_date, date);
    assert_eq!(item.completion_date, i.completion_date);
    assert_eq!(item.labels, i.labels);
}

#[test]
fn test_fetch_item() {
    let mut manager = toodle();
    let label = manager
        .create_label("label1".to_string(), "#000000".to_string())
        .expect("expected a label option")
        .unwrap();
    let mut created_item = Item {
        id: None,
        uuid: 0,
        name: "test item".to_string(),
        due_date: None,
        completion_date: None,
        labels: vec![label],
    };

    created_item.uuid = manager.create_item(&created_item).expect("expected a uuid");
    let fetched_item = manager
        .fetch_item(created_item.uuid)
        .expect("expected an item option")
        .expect("expected an item");
    assert_eq!(fetched_item.uuid, created_item.uuid);
    assert_eq!(fetched_item.name, created_item.name);
    assert_eq!(fetched_item.due_date, created_item.due_date);
    assert_eq!(fetched_item.completion_date, created_item.completion_date);
    assert_eq!(fetched_item.labels, created_item.labels);

    let tmp_uuid = uuid_to_text(create_uuid());
    let item_uuid = parse_uuid(&tmp_uuid).unwrap();
    let fetched_item = manager.fetch_item(item_uuid).expect("expected an item option");
    assert_eq!(fetched_item, None);
}

#[test]
fn test_fetch_labels_for_item() {
    let mut manager = toodle();
    let label = manager
        .create_label("label1".to_string(), "#000000".to_string())
        .expect("expected a label option")
        .unwrap();
    let label2 = manager
        .create_label("label2".to_string(), "#000000".to_string())
        .expect("expected a label option")
        .unwrap();
    let label3 = manager
        .create_label("label3".to_string(), "#000000".to_string())
        .expect("expected a label option")
        .unwrap();

    let mut item1 = Item {
        id: None,
        uuid: 0,
        name: "test item 1".to_string(),
        due_date: None,
        completion_date: None,
        labels: vec![label, label2, label3],
    };

    item1.uuid = manager.create_item(&item1).expect("expected a uuid");

    let fetched_labels =
        manager.fetch_labels_for_item(item1.uuid).expect("expected a vector of labels");
    assert_eq!(fetched_labels, item1.labels);
}

#[test]
fn test_fetch_items_with_label() {
    let mut manager = toodle();
    let label = manager
        .create_label("label1".to_string(), "#000000".to_string())
        .expect("expected a label option")
        .unwrap();
    let label2 = manager
        .create_label("label2".to_string(), "#000000".to_string())
        .expect("expected a label option")
        .unwrap();

    let item1 = Item {
        id: None,
        uuid: 0,
        name: "test item 1".to_string(),
        due_date: None,
        completion_date: None,
        labels: vec![label.clone()],
    };
    let item2 = Item {
        id: None,
        uuid: 0,
        name: "test item 2".to_string(),
        due_date: None,
        completion_date: None,
        labels: vec![label.clone()],
    };
    let item3 = Item {
        id: None,
        uuid: 0,
        name: "test item 3".to_string(),
        due_date: None,
        completion_date: None,
        labels: vec![label.clone(), label2.clone()],
    };

    let item4 = Item {
        id: None,
        uuid: 0,
        name: "test item 4".to_string(),
        due_date: None,
        completion_date: None,
        labels: vec![label2.clone()],
    };

    let item1 = manager
        .create_and_fetch_item(&item1)
        .expect("expected an item option")
        .expect("expected item1");
    let item2 = manager
        .create_and_fetch_item(&item2)
        .expect("expected an item option")
        .expect("expected item2");
    let item3 = manager
        .create_and_fetch_item(&item3)
        .expect("expected an item option")
        .expect("expected item3");
    let item4 = manager
        .create_and_fetch_item(&item4)
        .expect("expected an item option")
        .expect("expected item4");

    let fetched_label1_items =
        manager.fetch_items_with_label(&label).expect("expected a vector of items");
    assert_eq!(fetched_label1_items, vec![item1, item2, item3.clone()]);
    let fetched_label2_items =
        manager.fetch_items_with_label(&label2).expect("expected a vector of items");
    assert_eq!(fetched_label2_items, vec![item3, item4]);
}

#[test]
fn test_update_item_add_label() {
    let mut manager = toodle();
    let label = manager
        .create_label("label1".to_string(), "#000000".to_string())
        .expect("expected a label option")
        .unwrap();
    let label2 = manager
        .create_label("label2".to_string(), "#000000".to_string())
        .expect("expected a labeloption")
        .unwrap();
    let label3 = manager
        .create_label("label3".to_string(), "#000000".to_string())
        .expect("expected a label option")
        .unwrap();

    let item1 = Item {
        id: None,
        uuid: 0,
        name: "test item 1".to_string(),
        due_date: None,
        completion_date: None,
        labels: vec![label, label2],
    };

    let mut created_item = manager
        .create_and_fetch_item(&item1)
        .expect("expected an item option")
        .expect("expected an item");
    let mut new_labels = item1.labels.clone();
    new_labels.push(label3);

    match manager.update_item(&created_item, None, None, None, Some(&new_labels)) {
        Ok(()) => (),
        Err(e) => {
            println!("e {:?}", e);
            assert!(false)
        },
    }

    created_item.labels = new_labels;

    let fetched_item = manager
        .fetch_item(created_item.uuid)
        .expect("expected an item option")
        .expect("expected an item");
    assert_eq!(fetched_item, created_item);
}

#[test]
fn test_update_item_remove_label() {
    let mut manager = toodle();
    let label = manager
        .create_label("label1".to_string(), "#000000".to_string())
        .expect("expected a label option")
        .unwrap();
    let label2 = manager
        .create_label("label2".to_string(), "#000000".to_string())
        .expect("expected a label option")
        .unwrap();
    let label3 = manager
        .create_label("label3".to_string(), "#000000".to_string())
        .expect("expected a label option")
        .unwrap();

    let item1 = Item {
        id: None,
        uuid: 0,
        name: "test item 1".to_string(),
        due_date: None,
        completion_date: None,
        labels: vec![label, label2, label3],
    };

    let mut created_item = manager
        .create_and_fetch_item(&item1)
        .expect("expected an item option")
        .expect("expected an item");
    let mut new_labels = created_item.labels.clone();
    new_labels.remove(2);

    match manager.update_item(&created_item, None, None, None, Some(&new_labels)) {
        Ok(()) => (),
        Err(e) => {
            println!("e {:?}", e);
            assert!(false)
        },
    }

    created_item.labels = new_labels;

    let fetched_item = manager
        .fetch_item(created_item.uuid)
        .expect("expected an item option")
        .expect("expected an item");
    assert_eq!(fetched_item, created_item);
}

#[test]
fn test_update_item_add_due_date() {
    let mut manager = toodle();
    let label = manager
        .create_label("label1".to_string(), "#000000".to_string())
        .expect("expected a label option")
        .unwrap();
    let label2 = manager
        .create_label("label2".to_string(), "#000000".to_string())
        .expect("expected alabel option")
        .unwrap();
    let label3 = manager
        .create_label("label3".to_string(), "#000000".to_string())
        .expect("expected a label option")
        .unwrap();

    let date: i64 = 1700000000;
    let item1 = Item {
        id: None,
        uuid: 0,
        name: "test item 1".to_string(),
        due_date: None,
        completion_date: None,
        labels: vec![label, label2, label3],
    };

    let created_item = manager
        .create_and_fetch_item(&item1)
        .expect("expected an item option")
        .expect("expected an item");

    match manager.update_item(&created_item, None, Some(date), None, None) {
        Ok(()) => (),
        Err(e) => {
            println!("e {:?}", e);
            assert!(false)
        },
    }

    let fetched_item = manager
        .fetch_item(created_item.uuid)
        .expect("expected an item option")
        .expect("expected an item");
    let due_date = fetched_item.due_date.expect("expected a due date");
    assert_eq!(due_date, date);
}

#[test]
fn test_update_item_change_name() {
    let mut manager = toodle();
    let label = manager
        .create_label("label1".to_string(), "#000000".to_string())
        .expect("expected a label option")
        .unwrap();
    let label2 = manager
        .create_label("label2".to_string(), "#000000".to_string())
        .expect("expected a label option")
        .unwrap();
    let label3 = manager
        .create_label("label3".to_string(), "#000000".to_string())
        .expect("expected a label option")
        .unwrap();

    let date: i64 = 1700000000;
    let item1 = Item {
        id: None,
        uuid: 0,
        name: "test item 1".to_string(),
        due_date: Some(date),
        completion_date: None,
        labels: vec![label, label2, label3],
    };

    let mut created_item = manager
        .create_and_fetch_item(&item1)
        .expect("expected an item option")
        .expect("expected an item");
    match manager.update_item(&created_item, Some("new name".to_string()), None, None, None) {
        Ok(()) => (),
        Err(e) => {
            println!("e {:?}", e);
            assert!(false)
        },
    }

    created_item.name = "new name".to_string();

    let fetched_item = manager
        .fetch_item(created_item.uuid)
        .expect("expected an item option")
        .expect("expected an item");
    assert_eq!(fetched_item.name, created_item.name);
}

#[test]
fn test_update_item_complete_item() {
    let mut manager = toodle();
    let label = manager
        .create_label("label1".to_string(), "#000000".to_string())
        .expect("expected a label option")
        .unwrap();
    let label2 = manager
        .create_label("label2".to_string(), "#000000".to_string())
        .expect("expected a label option")
        .unwrap();
    let label3 = manager
        .create_label("label3".to_string(), "#000000".to_string())
        .expect("expected a label option")
        .unwrap();

    let date: i64 = 1700000000;
    let item1 = Item {
        id: None,
        uuid: 0,
        name: "test item 1".to_string(),
        due_date: None,
        completion_date: None,
        labels: vec![label, label2, label3],
    };

    let created_item = manager
        .create_and_fetch_item(&item1)
        .expect("expected an item option")
        .expect("expected an item");
    match manager.update_item(&created_item, None, None, Some(date), None) {
        Ok(()) => (),
        Err(e) => {
            println!("e {:?}", e);
            assert!(false)
        },
    }

    let fetched_item = manager
        .fetch_item(created_item.uuid)
        .expect("expected an item option")
        .expect("expected an item");
    let completion_date = fetched_item.completion_date.expect("expected a completion_date");
    assert_eq!(completion_date, date);
}
