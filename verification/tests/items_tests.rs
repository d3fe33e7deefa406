use rust_dev_server::handlers::{create_item, list_items, CreateItemRequest};
use rust_dev_server::items::{copy_item, Item, ItemStore};

fn request(name: &str, description: &str) -> CreateItemRequest {
    CreateItemRequest { name: name.to_string(), description: description.to_string() }
}

#[test]
fn new_store_holds_the_seed_record() {
    let store = ItemStore::new();
    let items = store.list();
    assert_eq!(items.len(), 1);
    assert_eq!(items[0].id, 1);
    assert_eq!(items[0].name, "Example Item");
    assert_eq!(items[0].description, "This is an example item");
    assert_eq!(store.largest_id(), 1);
}

#[test]
fn three_records_in_a_row_get_consecutive_ids() {
    let mut store = ItemStore::new();
    let first = store.create("a".to_string(), "first".to_string()).unwrap();
    let second = store.create("b".to_string(), "second".to_string()).unwrap();
    let third = store.create("c".to_string(), "third".to_string()).unwrap();
    assert_eq!((first.id, second.id, third.id), (2, 3, 4));
    let items = store.list();
    assert_eq!(items.len(), 4);
    assert_eq!(items.iter().map(|item| item.id).collect::<Vec<u32>>(), vec![1, 2, 3, 4]);
    assert_eq!(items[2].name, "b");
    assert_eq!(items[2].description, "second");
}

#[test]
fn next_id_is_one_above_the_largest_not_the_last() {
    let mut store = ItemStore { items: Vec::new() };
    for id in [7u32, 3, 9, 2] {
        store.items.push(Item { id, name: String::new(), description: String::new() });
    }
    assert_eq!(store.largest_id(), 9);
    let created = store.create("x".to_string(), "y".to_string()).unwrap();
    assert_eq!(created.id, 10);
    assert_eq!(store.list().last().unwrap().id, 10);
}

#[test]
fn empty_store_starts_at_one() {
    let mut store = ItemStore { items: Vec::new() };
    assert_eq!(store.largest_id(), 0);
    assert_eq!(store.create("x".to_string(), "y".to_string()).unwrap().id, 1);
}

#[test]
fn many_requests_give_distinct_ids_and_lose_nothing() {
    let mut store = ItemStore::new();
    let before = store.list().len();
    let n = 200;
    let mut ids = Vec::new();
    for k in 0..n {
        let item = store.create(format!("item {}", (k * 37) % n), String::new()).unwrap();
        ids.push(item.id);
    }
    let mut sorted = ids.clone();
    sorted.sort();
    sorted.dedup();
    assert_eq!(sorted.len(), n);
    assert!(!ids.contains(&1));
    assert_eq!(store.list().len(), before + n);
}

#[test]
fn exhausted_store_refuses_and_stays_as_it_was() {
    let mut store = ItemStore { items: Vec::new() };
    store.items.push(Item { id: u32::MAX, name: "last".to_string(), description: String::new() });
    assert!(store.create("x".to_string(), "y".to_string()).is_none());
    assert_eq!(store.list().len(), 1);
    let failed = create_item(&mut store, request("x", "y"));
    assert_eq!(failed.unwrap_err().detail, "no item id is left");
    assert_eq!(store.list().len(), 1);
    assert_eq!(store.list()[0].id, u32::MAX);
}

#[test]
fn create_item_reports_the_record_as_created() {
    let mut store = ItemStore::new();
    let (status, item) = create_item(&mut store, request("Widget", "A small widget")).unwrap();
    assert_eq!(status, 201);
    assert_eq!(item.id, 2);
    assert_eq!(item.name, "Widget");
    assert_eq!(item.description, "A small widget");
    assert_eq!(list_items(&store).len(), 2);
}

#[test]
fn create_item_accepts_empty_texts() {
    let mut store = ItemStore::new();
    let (status, item) = create_item(&mut store, request("", "")).unwrap();
    assert_eq!(status, 201);
    assert_eq!(item.id, 2);
    assert_eq!(item.name, "");
    assert_eq!(item.description, "");
}

#[test]
fn list_items_is_a_snapshot() {
    let mut store = ItemStore::new();
    let snapshot = list_items(&store);
    store.create("later".to_string(), String::new()).unwrap();
    assert_eq!(snapshot.len(), 1);
    assert_eq!(list_items(&store).len(), 2);
}

#[test]
fn copy_item_keeps_every_field() {
    let item = Item { id: 5, name: "n".to_string(), description: "d".to_string() };
    let copy = copy_item(&item);
    assert_eq!((copy.id, copy.name.as_str(), copy.description.as_str()), (5, "n", "d"));
    let clone = item.clone();
    assert_eq!(clone.id, 5);
}
