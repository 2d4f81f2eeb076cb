use inventory::categories::CategoryStore;
use inventory::keys::StoreError;
use inventory::models::{Category, Product, Timestamp};
use inventory::products::ProductStore;
use inventory::responses::{
    error_message, error_status, success_status, Operation, Resource, STATUS_CREATED,
    STATUS_INTERNAL_ERROR, STATUS_NOT_FOUND, STATUS_NO_CONTENT, STATUS_OK,
};

fn at(secs: i64, nanos: u32) -> Timestamp {
    Timestamp { secs, nanos }
}

fn tools() -> Category {
    Category { id: 42, name: "Tools".to_string(), created_at: at(10, 0), updated_at: at(11, 0) }
}

fn widget() -> Product {
    Product {
        id: 999,
        name: "Widget".to_string(),
        category: tools(),
        price: 500,
        created_at: at(1, 0),
        updated_at: at(2, 0),
        quantity: 10,
    }
}

fn named(name: &str, price: u32, quantity: u32) -> Product {
    Product { name: name.to_string(), price, quantity, ..widget() }
}

#[test]
fn create_then_get_returns_created_record() {
    let mut store = ProductStore::new();
    let created = store.create(widget()).unwrap();
    assert_ne!(created.id, 999);
    assert_eq!(created.name, "Widget");
    assert_eq!(created.price, 500);
    assert_eq!(created.quantity, 10);
    assert_eq!(created.category.id, 42);
    assert_eq!(created.category.name, "Tools");
    assert_eq!(created.created_at, created.updated_at);
    assert!(created.created_at.secs > 1_600_000_000);
    let got = store.get(created.id).unwrap();
    assert_eq!(got.id, created.id);
    assert_eq!(got.name, created.name);
    assert_eq!(got.price, created.price);
    assert_eq!(got.quantity, created.quantity);
    assert_eq!(got.created_at, created.created_at);
    assert_eq!(got.updated_at, created.updated_at);
}

#[test]
fn create_with_ignores_client_fields() {
    let mut store = ProductStore::new();
    let created = store.create_with(widget(), 7, at(100, 5)).unwrap();
    assert_eq!(created.id, 7);
    assert_eq!(created.created_at, at(100, 5));
    assert_eq!(created.updated_at, at(100, 5));
    assert_eq!(created.name, "Widget");
    assert_eq!(store.len(), 1);
}

#[test]
fn created_identifiers_are_distinct() {
    let mut store = ProductStore::new();
    let mut ids: Vec<u128> = Vec::new();
    for i in 0..50u32 {
        let p = store.create(named("item", i, i)).unwrap();
        assert!(!ids.contains(&p.id));
        ids.push(p.id);
    }
    assert_eq!(store.len(), 50);
}

#[test]
fn create_with_held_identifier_is_refused() {
    let mut store = ProductStore::new();
    store.create_with(widget(), 7, at(100, 0)).unwrap();
    let r = store.create_with(named("Gadget", 1, 1), 7, at(200, 0));
    assert_eq!(r.unwrap_err(), StoreError::DuplicateId);
    assert_eq!(store.len(), 1);
    assert_eq!(store.get(7).unwrap().name, "Widget");
}

#[test]
fn delete_then_get_is_not_found() {
    let mut store = ProductStore::new();
    let created = store.create(widget()).unwrap();
    assert_eq!(store.delete(created.id), Ok(()));
    assert_eq!(store.get(created.id).unwrap_err(), StoreError::NotFound);
    assert_eq!(store.len(), 0);
}

#[test]
fn update_is_partial() {
    let mut store = ProductStore::new();
    store.create_with(widget(), 7, at(100, 0)).unwrap();
    let mut payload = named("Gizmo", 750, 3);
    payload.id = 8;
    payload.category = Category { id: 1, name: "Other".to_string(), ..tools() };
    payload.created_at = at(5, 0);
    let updated = store.update_with(7, payload, at(200, 1)).unwrap();
    assert_eq!(updated.id, 7);
    assert_eq!(updated.name, "Gizmo");
    assert_eq!(updated.price, 750);
    assert_eq!(updated.quantity, 3);
    assert_eq!(updated.category.id, 42);
    assert_eq!(updated.category.name, "Tools");
    assert_eq!(updated.created_at, at(100, 0));
    assert_eq!(updated.updated_at, at(200, 1));
    let got = store.get(7).unwrap();
    assert_eq!(got.name, "Gizmo");
    assert_eq!(got.updated_at, at(200, 1));
    assert!(store.get(8).is_err());
}

#[test]
fn update_refreshes_updated_at() {
    let mut store = ProductStore::new();
    let created = store.create(widget()).unwrap();
    let updated = store.update(created.id, named("Gizmo", 1, 2)).unwrap();
    assert_eq!(updated.id, created.id);
    assert_eq!(updated.created_at, created.created_at);
    assert!(!updated.updated_at.before(&created.updated_at));
}

#[test]
fn list_reflects_store_in_creation_order() {
    let mut store = ProductStore::new();
    assert!(store.list().is_empty());
    let a = store.create_with(named("a", 1, 1), 1, at(1, 0)).unwrap();
    let b = store.create_with(named("b", 2, 2), 2, at(2, 0)).unwrap();
    let c = store.create_with(named("c", 3, 3), 3, at(3, 0)).unwrap();
    store.delete(b.id).unwrap();
    let listed = store.list();
    assert_eq!(listed.len(), 2);
    assert_eq!(listed[0].id, a.id);
    assert_eq!(listed[0].name, "a");
    assert_eq!(listed[1].id, c.id);
    assert_eq!(listed[1].name, "c");
}

#[test]
fn missing_identifier_is_not_found_everywhere() {
    let mut store = ProductStore::new();
    let created = store.create_with(widget(), 7, at(1, 0)).unwrap();
    assert_eq!(store.get(8).unwrap_err(), StoreError::NotFound);
    assert_eq!(store.update(8, widget()).unwrap_err(), StoreError::NotFound);
    assert_eq!(store.delete(8), Err(StoreError::NotFound));
    store.delete(created.id).unwrap();
    assert_eq!(store.get(7).unwrap_err(), StoreError::NotFound);
    assert_eq!(store.update_with(7, widget(), at(2, 0)).unwrap_err(), StoreError::NotFound);
    assert_eq!(store.delete(7), Err(StoreError::NotFound));
    assert_eq!(store.len(), 0);
}

#[test]
fn widget_scenario() {
    let mut store = ProductStore::new();
    let created = store.create(widget()).unwrap();
    assert_eq!(created.price, 500);
    assert_eq!(created.quantity, 10);
    assert_eq!(created.created_at, created.updated_at);
    let got = store.get(created.id).unwrap();
    assert_eq!(got.name, created.name);
    assert_eq!(store.delete(created.id), Ok(()));
    let e = store.get(created.id).unwrap_err();
    assert_eq!(error_status(e), 404);
    assert_eq!(error_message(Resource::Product, Operation::Get, e), "product not found");
}

#[test]
fn category_store_round_trip() {
    let mut store = CategoryStore::new();
    let created = store.create(tools()).unwrap();
    assert_ne!(created.id, 42);
    assert_eq!(created.name, "Tools");
    assert_eq!(created.created_at, created.updated_at);
    assert_eq!(store.get(created.id).unwrap().name, "Tools");
    let renamed = Category { name: "Hardware".to_string(), ..tools() };
    let updated = store.update_with(created.id, renamed, at(2_000_000_000, 0)).unwrap();
    assert_eq!(updated.id, created.id);
    assert_eq!(updated.name, "Hardware");
    assert_eq!(updated.created_at, created.created_at);
    assert_eq!(updated.updated_at, at(2_000_000_000, 0));
    assert_eq!(store.list().len(), 1);
    assert_eq!(store.delete(created.id), Ok(()));
    assert_eq!(store.get(created.id).unwrap_err(), StoreError::NotFound);
    assert_eq!(store.update(created.id, tools()).unwrap_err(), StoreError::NotFound);
    assert_eq!(store.delete(created.id), Err(StoreError::NotFound));
    assert!(store.list().is_empty());
}

#[test]
fn category_create_with_keeps_order_and_refuses_held_id() {
    let mut store = CategoryStore::new();
    store.create_with(tools(), 1, at(1, 0)).unwrap();
    store.create_with(tools(), 2, at(2, 0)).unwrap();
    assert_eq!(store.create_with(tools(), 1, at(3, 0)).unwrap_err(), StoreError::DuplicateId);
    let listed = store.list();
    assert_eq!(listed.len(), 2);
    assert_eq!(listed[0].id, 1);
    assert_eq!(listed[1].id, 2);
    assert_eq!(store.len(), 2);
}

#[test]
fn statuses_and_messages() {
    assert_eq!(success_status(Operation::List), STATUS_OK);
    assert_eq!(success_status(Operation::Get), 200);
    assert_eq!(success_status(Operation::Update), 200);
    assert_eq!(success_status(Operation::Create), STATUS_CREATED);
    assert_eq!(STATUS_CREATED, 201);
    assert_eq!(success_status(Operation::Delete), STATUS_NO_CONTENT);
    assert_eq!(STATUS_NO_CONTENT, 204);
    assert_eq!(error_status(StoreError::NotFound), STATUS_NOT_FOUND);
    assert_eq!(error_status(StoreError::DuplicateId), STATUS_INTERNAL_ERROR);
    assert_eq!(error_message(Resource::Product, Operation::Get, StoreError::NotFound), "product not found");
    assert_eq!(error_message(Resource::Product, Operation::Update, StoreError::NotFound), "product not found");
    assert_eq!(
        error_message(Resource::Product, Operation::Delete, StoreError::NotFound),
        "product was not found"
    );
    assert_eq!(error_message(Resource::Category, Operation::Get, StoreError::NotFound), "category not found");
    assert_eq!(
        error_message(Resource::Category, Operation::Delete, StoreError::NotFound),
        "category was not found"
    );
    assert_eq!(
        error_message(Resource::Product, Operation::Create, StoreError::DuplicateId),
        "identifier already in use"
    );
}

#[test]
fn timestamps_order() {
    assert!(at(1, 0).before(&at(2, 0)));
    assert!(at(1, 5).before(&at(1, 6)));
    assert!(!at(1, 6).before(&at(1, 6)));
    assert!(!at(2, 0).before(&at(1, 999_999_999)));
}
