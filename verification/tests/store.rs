use mobile_store::device::{Error, Payload};
use mobile_store::regions::RegionManager;
use mobile_store::store::Store;

fn payload(model: &str, brand: &str, price: u64, quantity: i32) -> Payload {
    Payload {
        model: model.to_string(),
        brand: brand.to_string(),
        specifications: "octa-core".to_string(),
        price,
        quantity,
        ram: "8GB".to_string(),
        rom: "256GB".to_string(),
        battery_power: "5000mAh".to_string(),
        camera_quality: "108MP".to_string(),
    }
}

fn fresh_store() -> Store {
    let regions = RegionManager::new();
    Store::open(&regions).expect("store init")
}

#[test]
fn create_assigns_first_id_and_stamps() {
    let mut store = fresh_store();
    let t1: u64 = 1_000;
    let d = store.create(payload("X1", "Acme", 100, 5), t1).unwrap();
    assert_eq!(d.id, 1);
    assert_eq!(d.model, "X1");
    assert_eq!(d.brand, "Acme");
    assert_eq!(d.price, 100);
    assert_eq!(d.quantity, 5);
    assert_eq!(d.created_at, t1);
    assert_eq!(d.updated_at, None);
}

#[test]
fn get_after_create_returns_equal_record() {
    let mut store = fresh_store();
    let t1: u64 = 7;
    let d = store.create(payload("X1", "Acme", 100, 5), t1).unwrap();
    let g = store.get(d.id).unwrap();
    assert_eq!(g.id, d.id);
    assert_eq!(g.model, d.model);
    assert_eq!(g.brand, d.brand);
    assert_eq!(g.specifications, d.specifications);
    assert_eq!(g.price, d.price);
    assert_eq!(g.quantity, d.quantity);
    assert_eq!(g.ram, d.ram);
    assert_eq!(g.rom, d.rom);
    assert_eq!(g.battery_power, d.battery_power);
    assert_eq!(g.camera_quality, d.camera_quality);
    assert_eq!(g.created_at, d.created_at);
    assert_eq!(g.updated_at, d.updated_at);
}

#[test]
fn update_preserves_identity_and_stamps() {
    let mut store = fresh_store();
    let t1: u64 = 1_000;
    let t2: u64 = 2_000;
    store.create(payload("X1", "Acme", 100, 5), t1).unwrap();
    let u = store.update(1, payload("X1", "Acme", 150, 5), t2).unwrap();
    assert_eq!(u.id, 1);
    assert_eq!(u.created_at, t1);
    assert_eq!(u.updated_at, Some(t2));
    assert!(u.updated_at.unwrap() > t1);
    assert_eq!(u.price, 150);
    let g = store.get(1).unwrap();
    assert_eq!(g.price, 150);
    assert_eq!(g.updated_at, Some(t2));
}

#[test]
fn update_missing_is_not_found() {
    let mut store = fresh_store();
    let r = store.update(9, payload("X1", "Acme", 100, 5), 1);
    assert_eq!(r.unwrap_err(), Error::NotFound { id: 9 });
}

#[test]
fn get_missing_is_not_found() {
    let store = fresh_store();
    assert_eq!(store.get(1).unwrap_err(), Error::NotFound { id: 1 });
}

#[test]
fn delete_returns_record_then_get_fails() {
    let mut store = fresh_store();
    store.create(payload("X1", "Acme", 100, 5), 1).unwrap();
    store.update(1, payload("X1", "Acme", 150, 5), 2).unwrap();
    let removed = store.delete(1).unwrap();
    assert_eq!(removed.id, 1);
    assert_eq!(removed.price, 150);
    assert_eq!(store.get(1).unwrap_err(), Error::NotFound { id: 1 });
    assert_eq!(store.delete(1).unwrap_err(), Error::NotFound { id: 1 });
}

#[test]
fn deleted_ids_are_never_reused() {
    let mut store = fresh_store();
    let d1 = store.create(payload("X1", "Acme", 100, 5), 1).unwrap();
    assert_eq!(d1.id, 1);
    store.delete(1).unwrap();
    let d2 = store.create(payload("X2", "Acme", 110, 6), 2).unwrap();
    let d3 = store.create(payload("X3", "Acme", 120, 7), 3).unwrap();
    assert_eq!(d2.id, 2);
    assert_eq!(d3.id, 3);
}

#[test]
fn created_ids_strictly_increase() {
    let mut store = fresh_store();
    let mut last: u64 = 0;
    for k in 0..10 {
        let d = store.create(payload("M", "B", 100 + k, 1), k).unwrap();
        assert!(d.id > last);
        last = d.id;
    }
}

#[test]
fn oversized_record_is_rejected_and_not_stored() {
    let mut store = fresh_store();
    let mut p = payload("X1", "Acme", 100, 5);
    p.specifications = "s".repeat(2000);
    let r = store.create(p, 1);
    assert_eq!(r.unwrap_err(), Error::EncodingError);
    // The issued id stays consumed, but nothing is stored under it.
    assert_eq!(store.get(1).unwrap_err(), Error::NotFound { id: 1 });
    let d = store.create(payload("X2", "Acme", 100, 5), 2).unwrap();
    assert_eq!(d.id, 2);
}

#[test]
fn oversized_update_leaves_record_unchanged() {
    let mut store = fresh_store();
    store.create(payload("X1", "Acme", 100, 5), 1).unwrap();
    let mut p = payload("X1", "Acme", 150, 5);
    p.model = "m".repeat(2000);
    assert_eq!(store.update(1, p, 2).unwrap_err(), Error::EncodingError);
    let g = store.get(1).unwrap();
    assert_eq!(g.price, 100);
    assert_eq!(g.updated_at, None);
}
