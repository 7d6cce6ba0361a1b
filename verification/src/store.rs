use vstd::prelude::*;
use crate::codec::{decode, encode, spec_decode, spec_encode, MAX_ENCODED_LEN};
use crate::counter::DurableCounter;
use crate::device::{Device, DeviceView, Error, Payload, PayloadView};
use crate::regions::{tree_entries, RecordTree, RegionManager};

verus! {

/// The region holding the id counter.
pub const COUNTER_REGION: u8 = 0;

/// The region holding the record map.
pub const RECORDS_REGION: u8 = 1;

/// Whether the bytes stored under key `k` are the encoding of a record
/// whose own id is `k`.
pub open spec fn entry_ok(k: u64, bytes: Seq<u8>) -> bool {
    match spec_decode(bytes) {
        Option::Some(d) => d.id == k,
        Option::None => false,
    }
}

/// Whether every stored entry decodes to a record keyed by its own id.
/// Every mutation of this store preserves this; it can only fail on a
/// durable space written by something else.
pub open spec fn entries_ok(entries: Map<u64, Seq<u8>>) -> bool {
    forall|k: u64| #[trigger] entries.contains_key(k) ==> entry_ok(k, entries[k])
}

/// The record a create request builds: the payload's fields under a fresh
/// id, stamped with the creation time, never yet updated.
pub open spec fn created_record(p: PayloadView, id: u64, now: u64) -> DeviceView {
    DeviceView {
        id,
        model: p.model,
        brand: p.brand,
        specifications: p.specifications,
        price: p.price,
        quantity: p.quantity,
        ram: p.ram,
        rom: p.rom,
        battery_power: p.battery_power,
        camera_quality: p.camera_quality,
        created_at: now,
        updated_at: Option::None,
    }
}

/// The record an update request builds: the payload's fields, with the
/// stored record's identity (`id`, `created_at`) kept and the update time
/// stamped.
pub open spec fn updated_record(d0: DeviceView, p: PayloadView, now: u64) -> DeviceView {
    DeviceView {
        id: d0.id,
        model: p.model,
        brand: p.brand,
        specifications: p.specifications,
        price: p.price,
        quantity: p.quantity,
        ram: p.ram,
        rom: p.rom,
        battery_power: p.battery_power,
        camera_quality: p.camera_quality,
        created_at: d0.created_at,
        updated_at: Option::Some(now),
    }
}

/// The durable record store: the id allocator and the record map, each in
/// its own region of one durable space.
pub struct Store {
    counter: DurableCounter,
    tree: RecordTree,
}

/// What a successful create did: issued the next id, built the payload's
/// record under it, and stored that record's encoding.
pub open spec fn create_ok(
    pre: Store,
    post: Store,
    p: PayloadView,
    now: u64,
    d: DeviceView,
) -> bool {
    &&& pre.counter_value() < u64::MAX
    &&& d == created_record(p, (pre.counter_value() + 1) as u64, now)
    &&& d.id == pre.counter_value() + 1
    &&& post.counter_value() == pre.counter_value() + 1
    &&& spec_encode(d).len() <= MAX_ENCODED_LEN
    &&& post.entries() == pre.entries().insert(d.id, spec_encode(d))
}

/// What a successful update did: rebuilt the stored record under `id`
/// from the payload and overwrote its entry.
pub open spec fn update_ok(
    pre: Store,
    post: Store,
    id: u64,
    p: PayloadView,
    now: u64,
    d: DeviceView,
) -> bool {
    &&& pre.entries().contains_key(id)
    &&& entry_ok(id, pre.entries()[id])
    &&& d == updated_record(spec_decode(pre.entries()[id]).unwrap(), p, now)
    &&& spec_encode(d).len() <= MAX_ENCODED_LEN
    &&& post.entries() == pre.entries().insert(id, spec_encode(d))
    &&& post.counter_value() == pre.counter_value()
}

/// What a successful delete did: removed the entry under `id`, which held
/// the returned record.
pub open spec fn delete_ok(pre: Store, post: Store, id: u64, d: DeviceView) -> bool {
    &&& pre.entries().contains_key(id)
    &&& entry_ok(id, pre.entries()[id])
    &&& spec_decode(pre.entries()[id]) == Option::Some(d)
    &&& post.entries() == pre.entries().remove(id)
    &&& post.counter_value() == pre.counter_value()
}

impl Store {
    /// The stored bytes, by record id.
    pub closed spec fn entries(&self) -> Map<u64, Seq<u8>> {
        tree_entries(self.tree)
    }

    /// The id allocator's persisted value.
    pub closed spec fn counter_value(&self) -> u64 {
        self.counter.value()
    }

    /// Attaches the store to its two regions of the durable space,
    /// reconstructing whatever state was persisted there. Yields nothing
    /// when the counter region cannot be opened, a fatal initialization
    /// error.
    pub fn open(regions: &RegionManager) -> (r: Option<Store>) {
        let counter = match DurableCounter::init(regions.region(COUNTER_REGION)) {
            Some(c) => c,
            None => {
                return None;
            },
        };
        let tree = RecordTree::init(regions.region(RECORDS_REGION));
        Some(Store { counter, tree })
    }

    /// One pass over the stored entries, in ascending id order: the
    /// point-in-time snapshot every scan query walks.
    pub(crate) fn scan_pairs(&self) -> (r: Vec<(u64, Vec<u8>)>)
        ensures
            forall|i: int|
                #![trigger r@[i]]
                0 <= i < r@.len() ==> self.entries().contains_key(r@[i].0) && self.entries()[r@[i].0]
                    == r@[i].1@,
            forall|i: int, j: int| 0 <= i < j < r@.len() ==> r@[i].0 < r@[j].0,
            forall|k: u64|
                #[trigger] self.entries().contains_key(k) ==> exists|i: int|
                    0 <= i < r@.len() && r@[i].0 == k,
    {
        self.tree.scan()
    }

    /// Point lookup: the record stored under `id`, `NotFound` when the id
    /// is absent, `DecodingError` when the stored bytes are not a record
    /// keyed by `id`.
    pub fn get(&self, id: u64) -> (r: Result<Device, Error>)
        ensures
            r matches Ok(d) ==> spec_decode(self.entries()[id]) == Option::Some(d@) && d@.id == id,
            r is Ok <==> self.entries().contains_key(id) && entry_ok(id, self.entries()[id]),
            !self.entries().contains_key(id) ==> r == Err::<Device, Error>(
                Error::NotFound { id },
            ),
            self.entries().contains_key(id) && !entry_ok(id, self.entries()[id]) ==> r == Err::<
                Device,
                Error,
            >(Error::DecodingError),
    {
        match self.tree.get(id) {
            None => Err(Error::NotFound { id }),
            Some(bytes) => match decode(&bytes) {
                Ok(d) => {
                    if d.id == id {
                        Ok(d)
                    } else {
                        Err(Error::DecodingError)
                    }
                },
                Err(_) => Err(Error::DecodingError),
            },
        }
    }

    /// Creates a record from the payload under a freshly issued id,
    /// stamped with `now`. Fails with `AllocationFailure` when no id can
    /// be issued (nothing changes), and with `EncodingError` when the
    /// record would exceed the size bound (the issued id stays consumed,
    /// nothing is stored).
    pub fn create(&mut self, payload: Payload, now: u64) -> (r: Result<Device, Error>)
        ensures
            r matches Ok(d) ==> create_ok(*old(self), *final(self), payload@, now, d@),
            r == Err::<Device, Error>(Error::AllocationFailure) ==> final(self).entries() == old(
                self,
            ).entries() && final(self).counter_value() == old(self).counter_value(),
            r == Err::<Device, Error>(Error::EncodingError) ==> final(self).entries() == old(
                self,
            ).entries() && final(self).counter_value() == old(self).counter_value() + 1
                && spec_encode(
                created_record(payload@, (old(self).counter_value() + 1) as u64, now),
            ).len() > MAX_ENCODED_LEN,
            r is Err ==> r == Err::<Device, Error>(Error::AllocationFailure) || r == Err::<
                Device,
                Error,
            >(Error::EncodingError),
            final(self).counter_value() >= old(self).counter_value(),
    {
        let id = match self.counter.next() {
            Ok(v) => v,
            Err(e) => {
                return Err(e);
            },
        };
        let d = Device {
            id,
            model: payload.model,
            brand: payload.brand,
            specifications: payload.specifications,
            price: payload.price,
            quantity: payload.quantity,
            ram: payload.ram,
            rom: payload.rom,
            battery_power: payload.battery_power,
            camera_quality: payload.camera_quality,
            created_at: now,
            updated_at: None,
        };
        let bytes = match encode(&d) {
            Ok(b) => b,
            Err(e) => {
                return Err(e);
            },
        };
        self.tree.insert(id, bytes);
        Ok(d)
    }

    /// Replaces every non-identity field of the record under `id` with
    /// the payload's fields and stamps `now` as its update time. Fails
    /// with `NotFound` when the id is absent, `DecodingError` when the
    /// stored bytes are not a record keyed by `id`, and `EncodingError`
    /// when the rebuilt record would exceed the size bound; nothing
    /// changes on failure.
    pub fn update(&mut self, id: u64, payload: Payload, now: u64) -> (r: Result<Device, Error>)
        ensures
            r matches Ok(d) ==> update_ok(*old(self), *final(self), id, payload@, now, d@),
            !old(self).entries().contains_key(id) ==> r == Err::<Device, Error>(
                Error::NotFound { id },
            ),
            old(self).entries().contains_key(id) && !entry_ok(id, old(self).entries()[id]) ==> r
                == Err::<Device, Error>(Error::DecodingError),
            old(self).entries().contains_key(id) && entry_ok(id, old(self).entries()[id])
                && spec_encode(
                updated_record(spec_decode(old(self).entries()[id]).unwrap(), payload@, now),
            ).len() > MAX_ENCODED_LEN ==> r == Err::<Device, Error>(Error::EncodingError),
            r is Err ==> final(self).entries() == old(self).entries(),
            final(self).counter_value() == old(self).counter_value(),
            r is Ok <==> old(self).entries().contains_key(id) && entry_ok(
                id,
                old(self).entries()[id],
            ) && spec_encode(
                updated_record(spec_decode(old(self).entries()[id]).unwrap(), payload@, now),
            ).len() <= MAX_ENCODED_LEN,
    {
        let d0 = match self.tree.get(id) {
            None => {
                return Err(Error::NotFound { id });
            },
            Some(bytes) => match decode(&bytes) {
                Ok(x) => x,
                Err(_) => {
                    return Err(Error::DecodingError);
                },
            },
        };
        if d0.id != id {
            return Err(Error::DecodingError);
        }
        let d = Device {
            id: d0.id,
            model: payload.model,
            brand: payload.brand,
            specifications: payload.specifications,
            price: payload.price,
            quantity: payload.quantity,
            ram: payload.ram,
            rom: payload.rom,
            battery_power: payload.battery_power,
            camera_quality: payload.camera_quality,
            created_at: d0.created_at,
            updated_at: Some(now),
        };
        let bytes = match encode(&d) {
            Ok(b) => b,
            Err(e) => {
                return Err(e);
            },
        };
        self.tree.insert(id, bytes);
        Ok(d)
    }

    /// Removes and returns the record under `id`. Fails with `NotFound`
    /// when the id is absent (nothing changes) and with `DecodingError`
    /// when the stored bytes are not a record keyed by `id` (the entry is
    /// removed all the same, as the original surfaced such bytes only as
    /// an error).
    pub fn delete(&mut self, id: u64) -> (r: Result<Device, Error>)
        ensures
            r matches Ok(d) ==> delete_ok(*old(self), *final(self), id, d@),
            !old(self).entries().contains_key(id) ==> r == Err::<Device, Error>(
                Error::NotFound { id },
            ) && final(self).entries() == old(self).entries(),
            old(self).entries().contains_key(id) && !entry_ok(id, old(self).entries()[id]) ==> r
                == Err::<Device, Error>(Error::DecodingError) && final(self).entries() == old(
                self,
            ).entries().remove(id),
            r is Ok <==> old(self).entries().contains_key(id) && entry_ok(
                id,
                old(self).entries()[id],
            ),
            final(self).counter_value() == old(self).counter_value(),
    {
        match self.tree.remove(id) {
            None => Err(Error::NotFound { id }),
            Some(bytes) => match decode(&bytes) {
                Ok(d) => {
                    if d.id == id {
                        Ok(d)
                    } else {
                        Err(Error::DecodingError)
                    }
                },
                Err(_) => Err(Error::DecodingError),
            },
        }
    }
}

/// Law: a record returned by a successful create is stored under its id,
/// well formed, so a later lookup of that id returns it, equal in every
/// field.
pub proof fn lemma_get_after_create(
    pre: Store,
    post: Store,
    p: PayloadView,
    now: u64,
    d: DeviceView,
)
    requires
        create_ok(pre, post, p, now, d),
    ensures
        post.entries().contains_key(d.id),
        entry_ok(d.id, post.entries()[d.id]),
        spec_decode(post.entries()[d.id]) == Option::Some(d),
{
    crate::codec::lemma_round_trip(d);
}

/// Law: a record returned by a successful update is stored under its id,
/// well formed, so a later lookup of that id returns it, equal in every
/// field.
pub proof fn lemma_get_after_update(
    pre: Store,
    post: Store,
    id: u64,
    p: PayloadView,
    now: u64,
    d: DeviceView,
)
    requires
        update_ok(pre, post, id, p, now, d),
    ensures
        post.entries().contains_key(id),
        entry_ok(id, post.entries()[id]),
        spec_decode(post.entries()[id]) == Option::Some(d),
        d.id == id,
{
    crate::codec::lemma_round_trip(d);
}

/// Law: after a successful delete of `id`, nothing is stored under `id`,
/// so a later lookup of that id fails with `NotFound`.
pub proof fn lemma_get_after_delete(pre: Store, post: Store, id: u64, d: DeviceView)
    requires
        delete_ok(pre, post, id, d),
    ensures
        !post.entries().contains_key(id),
{
}

/// Law: a successful update keeps the stored record's identity and
/// freshens its stamp: the result's `id` and `created_at` are the
/// pre-update values, every other field is the payload's, and, the clock
/// having advanced past the record's previous stamp, the new stamp is
/// strictly later.
pub proof fn lemma_update_stamps(
    pre: Store,
    post: Store,
    id: u64,
    p: PayloadView,
    now: u64,
    d: DeviceView,
)
    requires
        update_ok(pre, post, id, p, now, d),
        match spec_decode(pre.entries()[id]).unwrap().updated_at {
            Option::Some(t) => now > t,
            Option::None => now > spec_decode(pre.entries()[id]).unwrap().created_at,
        },
    ensures
        d.id == spec_decode(pre.entries()[id]).unwrap().id,
        d.created_at == spec_decode(pre.entries()[id]).unwrap().created_at,
        d.updated_at == Option::Some(now),
        match spec_decode(pre.entries()[id]).unwrap().updated_at {
            Option::Some(t) => d.updated_at.unwrap() > t,
            Option::None => d.updated_at.unwrap() > d.created_at,
        },
        d.model == p.model && d.brand == p.brand && d.specifications == p.specifications,
        d.price == p.price && d.quantity == p.quantity,
        d.ram == p.ram && d.rom == p.rom && d.battery_power == p.battery_power
            && d.camera_quality == p.camera_quality,
{
}

/// Law: ids issued by successive successful creates are strictly
/// increasing, hence pairwise distinct, however many other operations,
/// deletes included, run in between: none of them decreases the counter.
pub proof fn lemma_create_ids_strictly_increase(
    pre1: Store,
    post1: Store,
    p1: PayloadView,
    now1: u64,
    d1: DeviceView,
    pre2: Store,
    post2: Store,
    p2: PayloadView,
    now2: u64,
    d2: DeviceView,
)
    requires
        create_ok(pre1, post1, p1, now1, d1),
        create_ok(pre2, post2, p2, now2, d2),
        post1.counter_value() <= pre2.counter_value(),
    ensures
        d2.id > d1.id,
{
}

} // verus!
