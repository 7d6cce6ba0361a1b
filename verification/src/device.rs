use vstd::prelude::*;

verus! {

/// One stored inventory record for a mobile device.
///
/// `price` is an order-preserving numeric price key: callers map their
/// price scale monotonically onto `u64` (for non-negative IEEE doubles the
/// bit pattern is such a mapping), so inclusive range queries over this
/// field mean the same as over the callers' prices.
#[derive(Debug)]
pub struct Device {
    pub id: u64,
    pub model: String,
    pub brand: String,
    pub specifications: String,
    pub price: u64,
    pub quantity: i32,
    pub ram: String,
    pub rom: String,
    pub battery_power: String,
    pub camera_quality: String,
    pub created_at: u64,
    pub updated_at: Option<u64>,
}

/// The mathematical value of a `Device`: every string as its character
/// sequence, everything else as itself.
pub ghost struct DeviceView {
    pub id: u64,
    pub model: Seq<char>,
    pub brand: Seq<char>,
    pub specifications: Seq<char>,
    pub price: u64,
    pub quantity: i32,
    pub ram: Seq<char>,
    pub rom: Seq<char>,
    pub battery_power: Seq<char>,
    pub camera_quality: Seq<char>,
    pub created_at: u64,
    pub updated_at: Option<u64>,
}

impl View for Device {
    type V = DeviceView;

    open spec fn view(&self) -> DeviceView {
        DeviceView {
            id: self.id,
            model: self.model@,
            brand: self.brand@,
            specifications: self.specifications@,
            price: self.price,
            quantity: self.quantity,
            ram: self.ram@,
            rom: self.rom@,
            battery_power: self.battery_power@,
            camera_quality: self.camera_quality@,
            created_at: self.created_at,
            updated_at: self.updated_at,
        }
    }
}

/// The caller-supplied fields of a create or update request: everything a
/// record holds except its identity (`id`, `created_at`, `updated_at`),
/// which the store assigns.
pub struct Payload {
    pub model: String,
    pub brand: String,
    pub specifications: String,
    pub price: u64,
    pub quantity: i32,
    pub ram: String,
    pub rom: String,
    pub battery_power: String,
    pub camera_quality: String,
}

/// The mathematical value of a `Payload`.
pub ghost struct PayloadView {
    pub model: Seq<char>,
    pub brand: Seq<char>,
    pub specifications: Seq<char>,
    pub price: u64,
    pub quantity: i32,
    pub ram: Seq<char>,
    pub rom: Seq<char>,
    pub battery_power: Seq<char>,
    pub camera_quality: Seq<char>,
}

impl View for Payload {
    type V = PayloadView;

    open spec fn view(&self) -> PayloadView {
        PayloadView {
            model: self.model@,
            brand: self.brand@,
            specifications: self.specifications@,
            price: self.price,
            quantity: self.quantity,
            ram: self.ram@,
            rom: self.rom@,
            battery_power: self.battery_power@,
            camera_quality: self.camera_quality@,
        }
    }
}

/// Everything a store operation can fail with.
#[derive(Clone, Copy, Debug, PartialEq, Eq, Structural)]
pub enum Error {
    /// No record is stored under the given id.
    NotFound { id: u64 },
    /// The record's encoded form would exceed the fixed size bound.
    EncodingError,
    /// Stored bytes are malformed, truncated, or keyed by a different id
    /// than the record they hold.
    DecodingError,
    /// A fresh id could not be issued: persisting the counter failed, or
    /// the id space is exhausted.
    AllocationFailure,
}

} // verus!
