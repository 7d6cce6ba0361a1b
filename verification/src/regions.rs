use vstd::prelude::*;
use ic_stable_structures::memory_manager::{MemoryId, MemoryManager, VirtualMemory};
use ic_stable_structures::{Cell, DefaultMemoryImpl, StableBTreeMap};

verus! {

/// One durable memory space partitioned into independently addressable
/// logical regions, stable across restarts. Wraps
/// ic_stable_structures::memory_manager::MemoryManager; the wrapped type
/// mentions std's RefCell, which the verifier does not model, so the
/// whole struct is held opaque.
#[verifier::external_body]
pub struct RegionManager {
    manager: MemoryManager<DefaultMemoryImpl>,
}

/// A handle to one logical region of the durable space. Wraps
/// ic_stable_structures::memory_manager::VirtualMemory, opaque for the
/// same reason as [`RegionManager`].
#[verifier::external_body]
pub struct RegionHandle {
    memory: VirtualMemory<DefaultMemoryImpl>,
}

impl RegionManager {
    /// Relies on MemoryManager::init: attaches to the process's durable
    /// memory space (fresh if none existed) and manages regions in it.
    #[verifier::external_body]
    pub fn new() -> (r: RegionManager) {
        RegionManager { manager: MemoryManager::init(DefaultMemoryImpl::default()) }
    }

    /// Relies on MemoryManager::get: the same region id always addresses
    /// the same logical region of the space, whether fresh or reattached.
    /// The largest id is reserved by the manager itself.
    #[verifier::external_body]
    pub fn region(&self, id: u8) -> (r: RegionHandle)
        requires
            id < 255,
    {
        RegionHandle { memory: self.manager.get(MemoryId::new(id)) }
    }
}

/// The one `u64` a durable counter cell currently holds.
pub uninterp spec fn cell_value(c: CounterCell) -> u64;

/// A single durable `u64` stored in its own region. Wraps
/// ic_stable_structures::Cell, opaque because its memory parameter
/// mentions std's RefCell.
#[verifier::external_body]
pub struct CounterCell {
    cell: Cell<u64, VirtualMemory<DefaultMemoryImpl>>,
}

impl CounterCell {
    /// Relies on Cell::init: attaches to the value already persisted in
    /// the region, or persists `default` if the region is empty; yields
    /// nothing when the region cannot be opened or written.
    #[verifier::external_body]
    pub fn init(region: RegionHandle, default: u64) -> (r: Option<CounterCell>) {
        match Cell::init(region.memory, default) {
            Ok(cell) => Some(CounterCell { cell }),
            Err(_) => None,
        }
    }

    /// Relies on Cell::get: returns the value the cell holds.
    #[verifier::external_body]
    pub fn read(&self) -> (v: u64)
        ensures
            v == cell_value(*self),
    {
        *self.cell.get()
    }

    /// Relies on Cell::set: persists the new value to the region before
    /// returning; when persisting fails, the held value is unchanged.
    #[verifier::external_body]
    pub fn write(&mut self, v: u64) -> (ok: bool)
        ensures
            ok ==> cell_value(*final(self)) == v,
            !ok ==> cell_value(*final(self)) == cell_value(*old(self)),
    {
        self.cell.set(v).is_ok()
    }
}

/// The entries the durable record tree currently holds: stored bytes by
/// record id.
pub uninterp spec fn tree_entries(t: RecordTree) -> Map<u64, Seq<u8>>;

/// An ordered durable map from `u64` id to encoded record bytes, stored
/// in its own region. Wraps ic_stable_structures::StableBTreeMap, opaque
/// because its memory parameter mentions std's RefCell.
#[verifier::external_body]
pub struct RecordTree {
    tree: StableBTreeMap<u64, Vec<u8>, VirtualMemory<DefaultMemoryImpl>>,
}

impl RecordTree {
    /// Relies on StableBTreeMap::init: attaches to the map persisted in
    /// the region; an empty region holds the empty map.
    #[verifier::external_body]
    pub fn init(region: RegionHandle) -> (r: RecordTree) {
        RecordTree { tree: StableBTreeMap::init(region.memory) }
    }

    /// Relies on StableBTreeMap::insert: adds or overwrites the entry,
    /// durably, and returns the previous value of the key, if any.
    #[verifier::external_body]
    pub fn insert(&mut self, key: u64, value: Vec<u8>) -> (prev: Option<Vec<u8>>)
        ensures
            tree_entries(*final(self)) == tree_entries(*old(self)).insert(key, value@),
            prev is Some <==> tree_entries(*old(self)).contains_key(key),
            prev matches Some(p) ==> p@ == tree_entries(*old(self))[key],
    {
        self.tree.insert(key, value)
    }

    /// Relies on StableBTreeMap::get: returns the value stored under the
    /// key, if any, without side effects.
    #[verifier::external_body]
    pub fn get(&self, key: u64) -> (r: Option<Vec<u8>>)
        ensures
            r is Some <==> tree_entries(*self).contains_key(key),
            r matches Some(v) ==> v@ == tree_entries(*self)[key],
    {
        self.tree.get(&key)
    }

    /// Relies on StableBTreeMap::remove: removes the entry under the key,
    /// durably, and returns its previous value, if any.
    #[verifier::external_body]
    pub fn remove(&mut self, key: u64) -> (prev: Option<Vec<u8>>)
        ensures
            tree_entries(*final(self)) == tree_entries(*old(self)).remove(key),
            prev is Some <==> tree_entries(*old(self)).contains_key(key),
            prev matches Some(p) ==> p@ == tree_entries(*old(self))[key],
    {
        self.tree.remove(&key)
    }

    /// Relies on StableBTreeMap::iter: yields every entry exactly once,
    /// in ascending key order.
    #[verifier::external_body]
    pub fn scan(&self) -> (r: Vec<(u64, Vec<u8>)>)
        ensures
            forall|i: int|
                #![trigger r@[i]]
                0 <= i < r@.len() ==> tree_entries(*self).contains_key(r@[i].0) && tree_entries(
                    *self,
                )[r@[i].0] == r@[i].1@,
            forall|i: int, j: int| 0 <= i < j < r@.len() ==> r@[i].0 < r@[j].0,
            forall|k: u64|
                #[trigger] tree_entries(*self).contains_key(k) ==> exists|i: int|
                    0 <= i < r@.len() && r@[i].0 == k,
    {
        self.tree.iter().collect()
    }
}

} // verus!
