use mobile_store::codec::{decode, encode};
use mobile_store::device::{Device, Error};
use mobile_store::counter::DurableCounter;
use mobile_store::regions::RegionManager;

fn device() -> Device {
    Device {
        id: 42,
        model: "Pixel 9".to_string(),
        brand: "Google".to_string(),
        specifications: "Tensor G4, 12GB RAM, ☎ unicode ✓".to_string(),
        price: 79_900,
        quantity: -3,
        ram: "12GB".to_string(),
        rom: "256GB".to_string(),
        battery_power: "4700mAh".to_string(),
        camera_quality: "50MP".to_string(),
        created_at: 1_700_000_000,
        updated_at: Some(1_700_000_500),
    }
}

#[test]
fn round_trip_keeps_every_field() {
    let d = device();
    let bytes = encode(&d).unwrap();
    let back = decode(&bytes).unwrap();
    assert_eq!(back.id, d.id);
    assert_eq!(back.model, d.model);
    assert_eq!(back.brand, d.brand);
    assert_eq!(back.specifications, d.specifications);
    assert_eq!(back.price, d.price);
    assert_eq!(back.quantity, d.quantity);
    assert_eq!(back.ram, d.ram);
    assert_eq!(back.rom, d.rom);
    assert_eq!(back.battery_power, d.battery_power);
    assert_eq!(back.camera_quality, d.camera_quality);
    assert_eq!(back.created_at, d.created_at);
    assert_eq!(back.updated_at, d.updated_at);
}

#[test]
fn round_trip_without_update_stamp() {
    let mut d = device();
    d.updated_at = None;
    let bytes = encode(&d).unwrap();
    let back = decode(&bytes).unwrap();
    assert_eq!(back.updated_at, None);
    assert_eq!(back.model, "Pixel 9");
}

#[test]
fn encode_rejects_oversized_record() {
    let mut d = device();
    d.specifications = "x".repeat(1024);
    assert_eq!(encode(&d).unwrap_err(), Error::EncodingError);
}

#[test]
fn encode_accepts_record_at_the_bound() {
    let mut d = device();
    d.model = String::new();
    d.brand = String::new();
    d.specifications = String::new();
    d.ram = String::new();
    d.rom = String::new();
    d.battery_power = String::new();
    d.camera_quality = String::new();
    // 4 u64 fields, 7 empty strings with 8-byte length prefixes, one u32,
    // one tag byte and one timestamp: well under the bound.
    let bytes = encode(&d).unwrap();
    assert!(bytes.len() <= 1024);
    let back = decode(&bytes).unwrap();
    assert_eq!(back.model, "");
    assert_eq!(back.id, d.id);
}

#[test]
fn decode_rejects_truncated_bytes() {
    let d = device();
    let mut bytes = encode(&d).unwrap();
    bytes.truncate(bytes.len() - 1);
    assert_eq!(decode(&bytes).unwrap_err(), Error::DecodingError);
}

#[test]
fn decode_rejects_trailing_bytes() {
    let d = device();
    let mut bytes = encode(&d).unwrap();
    bytes.push(0);
    assert_eq!(decode(&bytes).unwrap_err(), Error::DecodingError);
}

#[test]
fn decode_rejects_invalid_utf8() {
    let d = device();
    let mut bytes = encode(&d).unwrap();
    // The first byte of the model field's UTF-8 payload sits after the
    // record id and the model length prefix.
    bytes[16] = 0xff;
    assert_eq!(decode(&bytes).unwrap_err(), Error::DecodingError);
}

#[test]
fn decode_rejects_garbage() {
    let bytes: Vec<u8> = vec![9, 9, 9];
    assert_eq!(decode(&bytes).unwrap_err(), Error::DecodingError);
}

#[test]
fn counter_starts_fresh_and_increments() {
    let regions = RegionManager::new();
    let mut counter = DurableCounter::init(regions.region(0)).expect("counter init");
    assert_eq!(counter.current(), 0);
    assert_eq!(counter.next().unwrap(), 1);
    assert_eq!(counter.next().unwrap(), 2);
    assert_eq!(counter.current(), 2);
}
