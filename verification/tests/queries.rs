use mobile_store::device::Payload;
use mobile_store::regions::RegionManager;
use mobile_store::store::Store;

fn payload(model: &str, brand: &str, price: u64, quantity: i32, ram: &str) -> Payload {
    Payload {
        model: model.to_string(),
        brand: brand.to_string(),
        specifications: "spec".to_string(),
        price,
        quantity,
        ram: ram.to_string(),
        rom: "128GB".to_string(),
        battery_power: if price > 120 { "5000mAh" } else { "4000mAh" }.to_string(),
        camera_quality: if quantity > 4 { "108MP" } else { "48MP" }.to_string(),
    }
}

fn fresh_store() -> Store {
    let regions = RegionManager::new();
    Store::open(&regions).expect("store init")
}

#[test]
fn price_range_excludes_updated_price() {
    let mut store = fresh_store();
    store.create(payload("X1", "Acme", 100, 5, "8GB"), 1).unwrap();
    store
        .update(1, payload("X1", "Acme", 150, 5, "8GB"), 2)
        .unwrap();
    let hits = store.find_by_price_range(90, 120).unwrap();
    assert!(hits.is_empty());
}

#[test]
fn price_range_includes_updated_price() {
    let mut store = fresh_store();
    store.create(payload("X1", "Acme", 100, 5, "8GB"), 1).unwrap();
    store
        .update(1, payload("X1", "Acme", 150, 5, "8GB"), 2)
        .unwrap();
    let hits = store.find_by_price_range(140, 160).unwrap();
    assert_eq!(hits.len(), 1);
    assert_eq!(hits[0].id, 1);
    assert_eq!(hits[0].price, 150);
}

#[test]
fn price_range_is_inclusive_on_both_ends() {
    let mut store = fresh_store();
    store.create(payload("A", "Acme", 90, 1, "4GB"), 1).unwrap();
    store.create(payload("B", "Acme", 120, 1, "4GB"), 2).unwrap();
    store.create(payload("C", "Acme", 121, 1, "4GB"), 3).unwrap();
    let hits = store.find_by_price_range(90, 120).unwrap();
    assert_eq!(hits.len(), 2);
    assert_eq!(hits[0].id, 1);
    assert_eq!(hits[1].id, 2);
}

#[test]
fn list_all_is_ascending_by_id() {
    let mut store = fresh_store();
    store.create(payload("A", "Acme", 10, 1, "4GB"), 1).unwrap();
    store.create(payload("B", "Bell", 20, 2, "8GB"), 2).unwrap();
    store.create(payload("C", "Acme", 30, 3, "8GB"), 3).unwrap();
    store.delete(2).unwrap();
    store.create(payload("D", "Bell", 40, 4, "16GB"), 4).unwrap();
    let all = store.list_all().unwrap();
    let ids: Vec<u64> = all.iter().map(|d| d.id).collect();
    assert_eq!(ids, vec![1, 3, 4]);
}

#[test]
fn find_by_quantity_matches_exactly() {
    let mut store = fresh_store();
    store.create(payload("A", "Acme", 10, 5, "4GB"), 1).unwrap();
    store.create(payload("B", "Bell", 20, 3, "8GB"), 2).unwrap();
    store.create(payload("C", "Acme", 30, 5, "8GB"), 3).unwrap();
    let hits = store.find_by_quantity(5).unwrap();
    let ids: Vec<u64> = hits.iter().map(|d| d.id).collect();
    assert_eq!(ids, vec![1, 3]);
    assert!(store.find_by_quantity(7).unwrap().is_empty());
}

#[test]
fn find_by_brand_is_case_sensitive_exact() {
    let mut store = fresh_store();
    store.create(payload("A", "Acme", 10, 1, "4GB"), 1).unwrap();
    store.create(payload("B", "acme", 20, 2, "8GB"), 2).unwrap();
    let hits = store.find_by_brand("Acme".to_string()).unwrap();
    assert_eq!(hits.len(), 1);
    assert_eq!(hits[0].id, 1);
    assert!(store.find_by_brand("ACME".to_string()).unwrap().is_empty());
}

#[test]
fn find_by_ram_matches_exactly() {
    let mut store = fresh_store();
    store.create(payload("A", "Acme", 10, 1, "4GB"), 1).unwrap();
    store.create(payload("B", "Bell", 20, 2, "8GB"), 2).unwrap();
    store.create(payload("C", "Cell", 30, 3, "8GB"), 3).unwrap();
    let hits = store.find_by_ram("8GB".to_string()).unwrap();
    let ids: Vec<u64> = hits.iter().map(|d| d.id).collect();
    assert_eq!(ids, vec![2, 3]);
}

#[test]
fn find_by_battery_power_matches_exactly() {
    let mut store = fresh_store();
    store.create(payload("A", "Acme", 100, 1, "4GB"), 1).unwrap();
    store.create(payload("B", "Bell", 150, 2, "8GB"), 2).unwrap();
    let hits = store.find_by_battery_power("5000mAh".to_string()).unwrap();
    assert_eq!(hits.len(), 1);
    assert_eq!(hits[0].id, 2);
}

#[test]
fn find_by_camera_quality_matches_exactly() {
    let mut store = fresh_store();
    store.create(payload("A", "Acme", 100, 5, "4GB"), 1).unwrap();
    store.create(payload("B", "Bell", 150, 2, "8GB"), 2).unwrap();
    let hits = store.find_by_camera_quality("108MP".to_string()).unwrap();
    assert_eq!(hits.len(), 1);
    assert_eq!(hits[0].id, 1);
    assert!(store
        .find_by_camera_quality("200MP".to_string())
        .unwrap()
        .is_empty());
}
