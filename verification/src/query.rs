use vstd::prelude::*;
use crate::codec::{decode, spec_decode};
use crate::device::{Device, DeviceView, Error};
use crate::store::{entries_ok, entry_ok, Store};

verus! {

/// The mathematical values of a sequence of records.
pub open spec fn views_of(s: Seq<Device>) -> Seq<DeviceView> {
    s.map_values(|d: Device| d@)
}

/// What a successful query returned: exactly the currently stored records
/// satisfying `p`, in ascending id order, each decoded from its entry.
/// Holds only of a store whose every entry is well formed, which is the
/// only case in which a query succeeds.
pub open spec fn query_ok(
    entries: Map<u64, Seq<u8>>,
    r: Seq<DeviceView>,
    p: spec_fn(DeviceView) -> bool,
) -> bool {
    &&& entries_ok(entries)
    &&& forall|m: int|
        #![trigger r[m]]
        0 <= m < r.len() ==> entries.contains_key(r[m].id) && spec_decode(entries[r[m].id])
            == Option::Some(r[m]) && p(r[m])
    &&& forall|m1: int, m2: int| 0 <= m1 < m2 < r.len() ==> r[m1].id < r[m2].id
    &&& forall|k: u64|
        #[trigger] entries.contains_key(k) && p(spec_decode(entries[k]).unwrap()) ==> exists|
            m: int,
        | 0 <= m < r.len() && r[m].id == k
}

/// One predicate a scan filters by: a price range inclusive on both ends,
/// or equality on one field.
enum Criterion {
    Any,
    PriceRange(u64, u64),
    Quantity(i32),
    BatteryPower(String),
    Ram(String),
    Brand(String),
    CameraQuality(String),
}

/// Whether a record satisfies the criterion; string matches are
/// case-sensitive and exact.
spec fn spec_matches(c: Criterion, d: DeviceView) -> bool {
    match c {
        Criterion::Any => true,
        Criterion::PriceRange(lo, hi) => lo <= d.price && d.price <= hi,
        Criterion::Quantity(q) => d.quantity == q,
        Criterion::BatteryPower(s) => d.battery_power == s@,
        Criterion::Ram(s) => d.ram == s@,
        Criterion::Brand(s) => d.brand == s@,
        Criterion::CameraQuality(s) => d.camera_quality == s@,
    }
}

fn eval_criterion(c: &Criterion, d: &Device) -> (b: bool)
    ensures
        b == spec_matches(*c, d@),
{
    match c {
        Criterion::Any => true,
        Criterion::PriceRange(lo, hi) => *lo <= d.price && d.price <= *hi,
        Criterion::Quantity(q) => d.quantity == *q,
        Criterion::BatteryPower(s) => d.battery_power == *s,
        Criterion::Ram(s) => d.ram == *s,
        Criterion::Brand(s) => d.brand == *s,
        Criterion::CameraQuality(s) => d.camera_quality == *s,
    }
}

impl Store {
    /// Scans every entry in ascending id order, decodes it, and keeps the
    /// records matching the criterion; fails if any stored entry is
    /// malformed.
    #[verifier::loop_isolation(false)]
    #[verifier::rlimit(100)]
    fn find_matching(&self, c: &Criterion) -> (r: Result<Vec<Device>, Error>)
        ensures
            r matches Ok(v) ==> query_ok(
                self.entries(),
                views_of(v@),
                (|d: DeviceView| spec_matches(*c, d)),
            ),
            r is Ok <==> entries_ok(self.entries()),
            r is Err ==> r == Err::<Vec<Device>, Error>(Error::DecodingError),
    {
        let pairs = self.scan_pairs();
        let mut out: Vec<Device> = Vec::new();
        let mut i: usize = 0;
        while i < pairs.len()
            invariant
                i <= pairs@.len(),
                forall|j: int|
                    #![trigger pairs@[j]]
                    0 <= j < i ==> entry_ok(pairs@[j].0, self.entries()[pairs@[j].0]),
                forall|m: int|
                    #![trigger out@[m]]
                    0 <= m < out@.len() ==> self.entries().contains_key(out@[m]@.id)
                        && spec_decode(self.entries()[out@[m]@.id]) == Option::Some(out@[m]@)
                        && spec_matches(*c, out@[m]@),
                forall|m: int|
                    #![trigger out@[m]]
                    0 <= m < out@.len() ==> exists|j: int|
                        #![trigger pairs@[j]]
                        0 <= j < i && pairs@[j].0 == out@[m]@.id,
                forall|m1: int, m2: int|
                    0 <= m1 < m2 < out@.len() ==> out@[m1]@.id < out@[m2]@.id,
                forall|j: int|
                    #![trigger pairs@[j]]
                    0 <= j < i && spec_matches(
                        *c,
                        spec_decode(self.entries()[pairs@[j].0]).unwrap(),
                    ) ==> exists|m: int| 0 <= m < out@.len() && out@[m]@.id == pairs@[j].0,
            decreases pairs@.len() - i,
        {
            let pair = &pairs[i];
            proof {
                assert(self.entries().contains_key(pairs@[i as int].0));
                assert(self.entries()[pairs@[i as int].0] == pairs@[i as int].1@);
            }
            match decode(&pair.1) {
                Err(_) => {
                    proof {
                        assert(!entry_ok(pairs@[i as int].0, self.entries()[pairs@[i as int].0]));
                        assert(!entries_ok(self.entries()));
                    }
                    return Err(Error::DecodingError);
                },
                Ok(d) => {
                    if d.id != pair.0 {
                        proof {
                            assert(!entry_ok(
                                pairs@[i as int].0,
                                self.entries()[pairs@[i as int].0],
                            ));
                            assert(!entries_ok(self.entries()));
                        }
                        return Err(Error::DecodingError);
                    }
                    proof {
                        assert(spec_decode(self.entries()[pairs@[i as int].0]) == Option::Some(
                            d@,
                        ));
                        assert(entry_ok(pairs@[i as int].0, self.entries()[pairs@[i as int].0]));
                    }
                    let matched = eval_criterion(c, &d);
                    let ghost prev = out@;
                    if matched {
                        out.push(d);
                        proof {
                            assert(out@ == prev.push(d));
                            assert(forall|m: int| 0 <= m < prev.len() ==> out@[m] == prev[m]);
                            assert(out@[prev.len() as int]@.id == pairs@[i as int].0);
                        }
                    }
                    proof {
                        assert forall|j: int|
                            #![trigger pairs@[j]]
                            0 <= j < i + 1 && spec_matches(
                                *c,
                                spec_decode(self.entries()[pairs@[j].0]).unwrap(),
                            ) implies exists|m: int|
                            0 <= m < out@.len() && out@[m]@.id == pairs@[j].0 by {
                            if j == i {
                                assert(matched);
                                assert(out@[prev.len() as int]@.id == pairs@[j].0);
                            } else {
                                assert(exists|m: int|
                                    0 <= m < prev.len() && prev[m]@.id == pairs@[j].0);
                                let m = choose|m: int|
                                    0 <= m < prev.len() && prev[m]@.id == pairs@[j].0;
                                assert(out@[m]@.id == pairs@[j].0);
                            }
                        }
                    }
                },
            }
            i += 1;
        }
        proof {
            let r = views_of(out@);
            let p = (|d: DeviceView| spec_matches(*c, d));
            assert(forall|m: int| 0 <= m < out@.len() ==> r[m] == out@[m]@);
            assert(entries_ok(self.entries()));
            assert forall|m: int|
                #![trigger r[m]]
                0 <= m < r.len() implies self.entries().contains_key(r[m].id) && spec_decode(
                self.entries()[r[m].id],
            ) == Option::Some(r[m]) && p(r[m]) by {
                assert(r[m] == out@[m]@);
            }
            assert forall|k: u64|
                #[trigger] self.entries().contains_key(k) && p(
                    spec_decode(self.entries()[k]).unwrap(),
                ) implies exists|m: int| 0 <= m < r.len() && r[m].id == k by {
                let j = choose|j: int| 0 <= j < pairs@.len() && pairs@[j].0 == k;
                assert(pairs@[j].0 == k);
                assert(spec_matches(*c, spec_decode(self.entries()[pairs@[j].0]).unwrap()));
                let m = choose|m: int| 0 <= m < out@.len() && out@[m]@.id == pairs@[j].0;
                assert(r[m].id == k);
            }
            assert(query_ok(self.entries(), r, p));
        }
        Ok(out)
    }

    /// Every stored record, in ascending id order; fails with
    /// `DecodingError` if any stored entry is malformed.
    pub fn list_all(&self) -> (r: Result<Vec<Device>, Error>)
        ensures
            r matches Ok(v) ==> query_ok(self.entries(), views_of(v@), (|d: DeviceView| true)),
            r is Ok <==> entries_ok(self.entries()),
            r is Err ==> r == Err::<Vec<Device>, Error>(Error::DecodingError),
    {
        let r = self.find_matching(&Criterion::Any);
        proof {
            assert(forall|d: DeviceView| #[trigger] spec_matches(Criterion::Any, d) == true);
        }
        r
    }

    /// The stored records whose price key lies in `[min, max]`, both ends
    /// inclusive, in ascending id order.
    pub fn find_by_price_range(&self, min: u64, max: u64) -> (r: Result<Vec<Device>, Error>)
        ensures
            r matches Ok(v) ==> query_ok(
                self.entries(),
                views_of(v@),
                (|d: DeviceView| min <= d.price && d.price <= max),
            ),
            r is Ok <==> entries_ok(self.entries()),
            r is Err ==> r == Err::<Vec<Device>, Error>(Error::DecodingError),
    {
        let r = self.find_matching(&Criterion::PriceRange(min, max));
        proof {
            assert(forall|d: DeviceView|
                #[trigger] spec_matches(Criterion::PriceRange(min, max), d) == (min <= d.price
                    && d.price <= max));
        }
        r
    }

    /// The stored records with exactly this quantity, in ascending id
    /// order.
    pub fn find_by_quantity(&self, quantity: i32) -> (r: Result<Vec<Device>, Error>)
        ensures
            r matches Ok(v) ==> query_ok(
                self.entries(),
                views_of(v@),
                (|d: DeviceView| d.quantity == quantity),
            ),
            r is Ok <==> entries_ok(self.entries()),
            r is Err ==> r == Err::<Vec<Device>, Error>(Error::DecodingError),
    {
        let r = self.find_matching(&Criterion::Quantity(quantity));
        proof {
            assert(forall|d: DeviceView|
                #[trigger] spec_matches(Criterion::Quantity(quantity), d) == (d.quantity
                    == quantity));
        }
        r
    }

    /// The stored records whose battery-power string equals `battery_power`
    /// exactly, in ascending id order.
    pub fn find_by_battery_power(&self, battery_power: String) -> (r: Result<Vec<Device>, Error>)
        ensures
            r matches Ok(v) ==> query_ok(
                self.entries(),
                views_of(v@),
                (|d: DeviceView| d.battery_power == battery_power@),
            ),
            r is Ok <==> entries_ok(self.entries()),
            r is Err ==> r == Err::<Vec<Device>, Error>(Error::DecodingError),
    {
        let c = Criterion::BatteryPower(battery_power);
        let r = self.find_matching(&c);
        proof {
            assert(forall|d: DeviceView| #[trigger] spec_matches(c, d) == (d.battery_power
                == battery_power@));
        }
        r
    }

    /// The stored records whose ram string equals `ram` exactly, in
    /// ascending id order.
    pub fn find_by_ram(&self, ram: String) -> (r: Result<Vec<Device>, Error>)
        ensures
            r matches Ok(v) ==> query_ok(
                self.entries(),
                views_of(v@),
                (|d: DeviceView| d.ram == ram@),
            ),
            r is Ok <==> entries_ok(self.entries()),
            r is Err ==> r == Err::<Vec<Device>, Error>(Error::DecodingError),
    {
        let c = Criterion::Ram(ram);
        let r = self.find_matching(&c);
        proof {
            assert(forall|d: DeviceView| #[trigger] spec_matches(c, d) == (d.ram == ram@));
        }
        r
    }

    /// The stored records whose brand string equals `brand` exactly, in
    /// ascending id order.
    pub fn find_by_brand(&self, brand: String) -> (r: Result<Vec<Device>, Error>)
        ensures
            r matches Ok(v) ==> query_ok(
                self.entries(),
                views_of(v@),
                (|d: DeviceView| d.brand == brand@),
            ),
            r is Ok <==> entries_ok(self.entries()),
            r is Err ==> r == Err::<Vec<Device>, Error>(Error::DecodingError),
    {
        let c = Criterion::Brand(brand);
        let r = self.find_matching(&c);
        proof {
            assert(forall|d: DeviceView| #[trigger] spec_matches(c, d) == (d.brand == brand@));
        }
        r
    }

    /// The stored records whose camera-quality string equals
    /// `camera_quality` exactly, in ascending id order.
    pub fn find_by_camera_quality(&self, camera_quality: String) -> (r: Result<Vec<Device>, Error>)
        ensures
            r matches Ok(v) ==> query_ok(
                self.entries(),
                views_of(v@),
                (|d: DeviceView| d.camera_quality == camera_quality@),
            ),
            r is Ok <==> entries_ok(self.entries()),
            r is Err ==> r == Err::<Vec<Device>, Error>(Error::DecodingError),
    {
        let c = Criterion::CameraQuality(camera_quality);
        let r = self.find_matching(&c);
        proof {
            assert(forall|d: DeviceView| #[trigger] spec_matches(c, d) == (d.camera_quality
                == camera_quality@));
        }
        r
    }
}

} // verus!
