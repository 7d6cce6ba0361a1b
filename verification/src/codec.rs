use vstd::prelude::*;
use vstd::slice::{slice_index_get, slice_subrange};
use vstd::utf8::{
    decode_utf8, encode_utf8, encode_utf8_decode_utf8, encode_utf8_valid_utf8, valid_utf8,
};
use crate::device::{Device, DeviceView, Error};

verus! {

/// Upper bound, in bytes, on the encoded form of one record.
pub const MAX_ENCODED_LEN: usize = 1024;

/// The eight little-endian bytes of a `u64`.
pub open spec fn u64_le(v: u64) -> Seq<u8> {
    seq![
        (v & 0xff) as u8,
        ((v >> 8) & 0xff) as u8,
        ((v >> 16) & 0xff) as u8,
        ((v >> 24) & 0xff) as u8,
        ((v >> 32) & 0xff) as u8,
        ((v >> 40) & 0xff) as u8,
        ((v >> 48) & 0xff) as u8,
        ((v >> 56) & 0xff) as u8,
    ]
}

/// The four little-endian bytes of a `u32`.
pub open spec fn u32_le(v: u32) -> Seq<u8> {
    seq![
        (v & 0xff) as u8,
        ((v >> 8) & 0xff) as u8,
        ((v >> 16) & 0xff) as u8,
        ((v >> 24) & 0xff) as u8,
    ]
}

/// A string field on the wire: the byte length of its UTF-8 form, then
/// that form itself.
pub open spec fn enc_str(s: Seq<char>) -> Seq<u8> {
    u64_le(encode_utf8(s).len() as u64) + encode_utf8(s)
}

/// An optional timestamp on the wire: a presence tag, then the value if
/// present.
pub open spec fn enc_opt_u64(o: Option<u64>) -> Seq<u8> {
    match o {
        Option::None => seq![0u8],
        Option::Some(t) => seq![1u8] + u64_le(t),
    }
}

/// The first half of a record's fields on the wire: identity, the three
/// descriptive strings, price and quantity.
pub open spec fn enc_front(d: DeviceView) -> Seq<u8> {
    u64_le(d.id) + (enc_str(d.model) + (enc_str(d.brand) + (enc_str(d.specifications) + (u64_le(
        d.price,
    ) + u32_le(d.quantity as u32)))))
}

/// The second half of a record's fields on the wire: the four hardware
/// strings and the two timestamps.
pub open spec fn enc_back(d: DeviceView) -> Seq<u8> {
    enc_str(d.ram) + (enc_str(d.rom) + (enc_str(d.battery_power) + (enc_str(d.camera_quality) + (
    u64_le(d.created_at) + enc_opt_u64(d.updated_at)))))
}

/// The encoded form of a record: its fields in declaration order, each in
/// the fixed layout above.
pub open spec fn spec_encode(d: DeviceView) -> Seq<u8> {
    enc_front(d) + enc_back(d)
}

/// The `u64` whose little-endian bytes are `b`.
pub open spec fn u64_from_le(b: Seq<u8>) -> u64
    recommends
        b.len() == 8,
{
    (b[0] as u64) | ((b[1] as u64) << 8) | ((b[2] as u64) << 16) | ((b[3] as u64) << 24) | ((b[4]
        as u64) << 32) | ((b[5] as u64) << 40) | ((b[6] as u64) << 48) | ((b[7] as u64) << 56)
}

/// The `u32` whose little-endian bytes are `b`.
pub open spec fn u32_from_le(b: Seq<u8>) -> u32
    recommends
        b.len() == 4,
{
    (b[0] as u32) | ((b[1] as u32) << 8) | ((b[2] as u32) << 16) | ((b[3] as u32) << 24)
}

/// Reads one `u64` from the front of `b`; yields it and the remainder.
pub open spec fn dec_u64(b: Seq<u8>) -> Option<(u64, Seq<u8>)> {
    if b.len() >= 8 {
        Option::Some((u64_from_le(b.take(8)), b.skip(8)))
    } else {
        Option::None
    }
}

/// Reads one `u32` from the front of `b`; yields it and the remainder.
pub open spec fn dec_u32(b: Seq<u8>) -> Option<(u32, Seq<u8>)> {
    if b.len() >= 4 {
        Option::Some((u32_from_le(b.take(4)), b.skip(4)))
    } else {
        Option::None
    }
}

/// Reads one length-prefixed string from the front of `b`; fails on a
/// short buffer or bytes that are not UTF-8.
pub open spec fn dec_str(b: Seq<u8>) -> Option<(Seq<char>, Seq<u8>)> {
    match dec_u64(b) {
        Option::None => Option::None,
        Option::Some((n, r)) => {
            if n <= r.len() && valid_utf8(r.take(n as int)) {
                Option::Some((decode_utf8(r.take(n as int)), r.skip(n as int)))
            } else {
                Option::None
            }
        },
    }
}

/// Reads one tagged optional timestamp from the front of `b`.
pub open spec fn dec_opt_u64(b: Seq<u8>) -> Option<(Option<u64>, Seq<u8>)> {
    if b.len() < 1 {
        Option::None
    } else if b[0] == 0u8 {
        Option::Some((Option::None, b.skip(1)))
    } else if b[0] == 1u8 {
        match dec_u64(b.skip(1)) {
            Option::None => Option::None,
            Option::Some((t, r)) => Option::Some((Option::Some(t), r)),
        }
    } else {
        Option::None
    }
}

/// The first half of a record's fields, as parsed.
pub ghost struct FrontView {
    pub id: u64,
    pub model: Seq<char>,
    pub brand: Seq<char>,
    pub specifications: Seq<char>,
    pub price: u64,
    pub quantity: u32,
}

/// The second half of a record's fields, as parsed.
pub ghost struct BackView {
    pub ram: Seq<char>,
    pub rom: Seq<char>,
    pub battery_power: Seq<char>,
    pub camera_quality: Seq<char>,
    pub created_at: u64,
    pub updated_at: Option<u64>,
}

/// Parses the first half of a record from the front of `b`.
pub open spec fn dec_front(b: Seq<u8>) -> Option<(FrontView, Seq<u8>)> {
    match dec_u64(b) {
        Option::None => Option::None,
        Option::Some((id, b1)) => match dec_str(b1) {
            Option::None => Option::None,
            Option::Some((model, b2)) => match dec_str(b2) {
                Option::None => Option::None,
                Option::Some((brand, b3)) => match dec_str(b3) {
                    Option::None => Option::None,
                    Option::Some((specifications, b4)) => match dec_u64(b4) {
                        Option::None => Option::None,
                        Option::Some((price, b5)) => match dec_u32(b5) {
                            Option::None => Option::None,
                            Option::Some((quantity, b6)) => Option::Some(
                                (FrontView { id, model, brand, specifications, price, quantity },
                                b6),
                            ),
                        },
                    },
                },
            },
        },
    }
}

/// Parses the second half of a record from the front of `b`.
pub open spec fn dec_back(b: Seq<u8>) -> Option<(BackView, Seq<u8>)> {
    match dec_str(b) {
        Option::None => Option::None,
        Option::Some((ram, b1)) => match dec_str(b1) {
            Option::None => Option::None,
            Option::Some((rom, b2)) => match dec_str(b2) {
                Option::None => Option::None,
                Option::Some((battery_power, b3)) => match dec_str(b3) {
                    Option::None => Option::None,
                    Option::Some((camera_quality, b4)) => match dec_u64(b4) {
                        Option::None => Option::None,
                        Option::Some((created_at, b5)) => match dec_opt_u64(b5) {
                            Option::None => Option::None,
                            Option::Some((updated_at, b6)) => Option::Some(
                                (BackView {
                                    ram,
                                    rom,
                                    battery_power,
                                    camera_quality,
                                    created_at,
                                    updated_at,
                                }, b6),
                            ),
                        },
                    },
                },
            },
        },
    }
}

/// The record assembled from its two parsed halves.
pub open spec fn assemble(f: FrontView, k: BackView) -> DeviceView {
    DeviceView {
        id: f.id,
        model: f.model,
        brand: f.brand,
        specifications: f.specifications,
        price: f.price,
        quantity: f.quantity as i32,
        ram: k.ram,
        rom: k.rom,
        battery_power: k.battery_power,
        camera_quality: k.camera_quality,
        created_at: k.created_at,
        updated_at: k.updated_at,
    }
}

/// The record whose encoded form is exactly `b`, if the bytes parse and
/// nothing trails them. Opaque: proofs outside this module treat parsing
/// as a function and rely on the contracts here.
#[verifier::opaque]
pub open spec fn spec_decode(b: Seq<u8>) -> Option<DeviceView> {
    match dec_front(b) {
        Option::None => Option::None,
        Option::Some((f, m)) => match dec_back(m) {
            Option::None => Option::None,
            Option::Some((k, r)) => {
                if r.len() == 0 {
                    Option::Some(assemble(f, k))
                } else {
                    Option::None
                }
            },
        },
    }
}

fn put_u64(buf: &mut Vec<u8>, v: u64)
    ensures
        final(buf)@ == old(buf)@ + u64_le(v),
{
    proof {
        assert((v & 0xff) < 256 && ((v >> 8) & 0xff) < 256 && ((v >> 16) & 0xff) < 256 && ((v
            >> 24) & 0xff) < 256 && ((v >> 32) & 0xff) < 256 && ((v >> 40) & 0xff) < 256 && ((v
            >> 48) & 0xff) < 256 && ((v >> 56) & 0xff) < 256) by (bit_vector);
    }
    buf.push((v & 0xff) as u8);
    buf.push(((v >> 8) & 0xff) as u8);
    buf.push(((v >> 16) & 0xff) as u8);
    buf.push(((v >> 24) & 0xff) as u8);
    buf.push(((v >> 32) & 0xff) as u8);
    buf.push(((v >> 40) & 0xff) as u8);
    buf.push(((v >> 48) & 0xff) as u8);
    buf.push(((v >> 56) & 0xff) as u8);
    proof {
        assert(buf@ =~= old(buf)@ + u64_le(v));
    }
}

fn put_u32(buf: &mut Vec<u8>, v: u32)
    ensures
        final(buf)@ == old(buf)@ + u32_le(v),
{
    proof {
        assert((v & 0xff) < 256 && ((v >> 8) & 0xff) < 256 && ((v >> 16) & 0xff) < 256 && ((v
            >> 24) & 0xff) < 256) by (bit_vector);
    }
    buf.push((v & 0xff) as u8);
    buf.push(((v >> 8) & 0xff) as u8);
    buf.push(((v >> 16) & 0xff) as u8);
    buf.push(((v >> 24) & 0xff) as u8);
    proof {
        assert(buf@ =~= old(buf)@ + u32_le(v));
    }
}

fn put_str(buf: &mut Vec<u8>, s: &str)
    ensures
        final(buf)@ == old(buf)@ + enc_str(s@),
{
    let bytes: &[u8] = s.as_bytes();
    let n: usize = bytes.len();
    put_u64(buf, n as u64);
    let ghost mid = buf@;
    let mut i: usize = 0;
    while i < n
        invariant
            i <= n,
            n == bytes@.len(),
            bytes@ == encode_utf8(s@),
            buf@ == mid + bytes@.take(i as int),
        decreases n - i,
    {
        buf.push(*slice_index_get(bytes, i));
        proof {
            assert(buf@ =~= mid + bytes@.take(i as int + 1));
        }
        i += 1;
    }
    proof {
        assert(bytes@.take(n as int) =~= bytes@);
        assert(buf@ =~= old(buf)@ + enc_str(s@));
    }
}

fn put_opt_u64(buf: &mut Vec<u8>, o: &Option<u64>)
    ensures
        final(buf)@ == old(buf)@ + enc_opt_u64(*o),
{
    match o {
        Option::None => {
            buf.push(0u8);
            proof {
                assert(buf@ =~= old(buf)@ + enc_opt_u64(Option::None));
            }
        },
        Option::Some(t) => {
            buf.push(1u8);
            put_u64(buf, *t);
            proof {
                assert(buf@ =~= old(buf)@ + enc_opt_u64(Option::Some(*t)));
            }
        },
    }
}

/// Serializes a record into its fixed layout; fails exactly when the
/// encoded form would exceed [`MAX_ENCODED_LEN`] bytes.
pub fn encode(d: &Device) -> (r: Result<Vec<u8>, Error>)
    ensures
        r matches Ok(b) ==> b@ == spec_encode(d@) && b@.len() <= MAX_ENCODED_LEN,
        r is Err ==> r == Err::<Vec<u8>, Error>(Error::EncodingError),
        r is Err <==> spec_encode(d@).len() > MAX_ENCODED_LEN,
{
    let mut buf: Vec<u8> = Vec::new();
    put_u64(&mut buf, d.id);
    put_str(&mut buf, d.model.as_str());
    put_str(&mut buf, d.brand.as_str());
    put_str(&mut buf, d.specifications.as_str());
    put_u64(&mut buf, d.price);
    put_u32(&mut buf, #[verifier::truncate] (d.quantity as u32));
    proof {
        assert(buf@ =~= enc_front(d@));
    }
    let ghost front = buf@;
    put_str(&mut buf, d.ram.as_str());
    put_str(&mut buf, d.rom.as_str());
    put_str(&mut buf, d.battery_power.as_str());
    put_str(&mut buf, d.camera_quality.as_str());
    put_u64(&mut buf, d.created_at);
    put_opt_u64(&mut buf, &d.updated_at);
    proof {
        assert(buf@ =~= front + enc_back(d@));
    }
    if buf.len() <= MAX_ENCODED_LEN {
        Ok(buf)
    } else {
        Err(Error::EncodingError)
    }
}

fn read_u64(bytes: &Vec<u8>, off: usize) -> (r: Option<(u64, usize)>)
    requires
        off <= bytes@.len(),
    ensures
        (match r {
            Option::Some(p) => {
                &&& dec_u64(bytes@.skip(off as int)) == Option::Some(
                    (p.0, bytes@.skip(p.1 as int)),
                )
                &&& p.1 == off + 8
                &&& p.1 <= bytes@.len()
            },
            Option::None => dec_u64(bytes@.skip(off as int)) is None,
        }),
{
    if bytes.len() - off >= 8 {
        let v: u64 = (bytes[off] as u64) | ((bytes[off + 1] as u64) << 8) | ((bytes[off + 2]
            as u64) << 16) | ((bytes[off + 3] as u64) << 24) | ((bytes[off + 4] as u64) << 32) | ((
        bytes[off + 5] as u64) << 40) | ((bytes[off + 6] as u64) << 48) | ((bytes[off + 7] as u64)
            << 56);
        proof {
            let t = bytes@.skip(off as int);
            assert(t.take(8) =~= bytes@.subrange(off as int, off as int + 8));
            assert(u64_from_le(t.take(8)) == v);
            assert(t.skip(8) =~= bytes@.skip(off as int + 8));
        }
        Some((v, off + 8))
    } else {
        None
    }
}

fn read_u32(bytes: &Vec<u8>, off: usize) -> (r: Option<(u32, usize)>)
    requires
        off <= bytes@.len(),
    ensures
        (match r {
            Option::Some(p) => {
                &&& dec_u32(bytes@.skip(off as int)) == Option::Some(
                    (p.0, bytes@.skip(p.1 as int)),
                )
                &&& p.1 == off + 4
                &&& p.1 <= bytes@.len()
            },
            Option::None => dec_u32(bytes@.skip(off as int)) is None,
        }),
{
    if bytes.len() - off >= 4 {
        let v: u32 = (bytes[off] as u32) | ((bytes[off + 1] as u32) << 8) | ((bytes[off + 2]
            as u32) << 16) | ((bytes[off + 3] as u32) << 24);
        proof {
            let t = bytes@.skip(off as int);
            assert(t.take(4) =~= bytes@.subrange(off as int, off as int + 4));
            assert(u32_from_le(t.take(4)) == v);
            assert(t.skip(4) =~= bytes@.skip(off as int + 4));
        }
        Some((v, off + 4))
    } else {
        None
    }
}

/// Relies on str::from_utf8 from core: it succeeds exactly on valid UTF-8
/// input, and the returned string's UTF-8 form is the input bytes.
#[verifier::external_body]
fn utf8_to_string(bytes: &[u8]) -> (r: Option<String>)
    ensures
        r is Some <==> valid_utf8(bytes@),
        r matches Some(s) ==> encode_utf8(s@) == bytes@,
{
    core::str::from_utf8(bytes).ok().map(|s| s.to_string())
}

fn read_str(bytes: &Vec<u8>, off: usize) -> (r: Option<(String, usize)>)
    requires
        off <= bytes@.len(),
    ensures
        (match r {
            Option::Some(p) => {
                &&& dec_str(bytes@.skip(off as int)) == Option::Some(
                    (p.0@, bytes@.skip(p.1 as int)),
                )
                &&& off <= p.1 <= bytes@.len()
            },
            Option::None => dec_str(bytes@.skip(off as int)) is None,
        }),
{
    match read_u64(bytes, off) {
        None => None,
        Some((n, off1)) => {
            if n <= (bytes.len() - off1) as u64 {
                let nn: usize = n as usize;
                let sub: &[u8] = slice_subrange(bytes.as_slice(), off1, off1 + nn);
                proof {
                    assert(sub@ =~= bytes@.skip(off1 as int).take(n as int));
                }
                match utf8_to_string(sub) {
                    None => None,
                    Some(s) => {
                        proof {
                            encode_utf8_decode_utf8(s@);
                            assert(bytes@.skip(off1 as int).skip(n as int) =~= bytes@.skip(
                                off1 as int + n as int,
                            ));
                        }
                        Some((s, off1 + nn))
                    },
                }
            } else {
                None
            }
        },
    }
}

fn read_opt_u64(bytes: &Vec<u8>, off: usize) -> (r: Option<(Option<u64>, usize)>)
    requires
        off <= bytes@.len(),
    ensures
        (match r {
            Option::Some(p) => {
                &&& dec_opt_u64(bytes@.skip(off as int)) == Option::Some(
                    (p.0, bytes@.skip(p.1 as int)),
                )
                &&& off <= p.1 <= bytes@.len()
            },
            Option::None => dec_opt_u64(bytes@.skip(off as int)) is None,
        }),
{
    if off < bytes.len() {
        let tag = bytes[off];
        if tag == 0 {
            proof {
                assert(bytes@.skip(off as int).skip(1) =~= bytes@.skip(off as int + 1));
            }
            Some((None, off + 1))
        } else if tag == 1 {
            proof {
                assert(bytes@.skip(off as int).skip(1) =~= bytes@.skip(off as int + 1));
            }
            match read_u64(bytes, off + 1) {
                None => None,
                Some((v, off2)) => Some((Some(v), off2)),
            }
        } else {
            None
        }
    } else {
        None
    }
}

/// The first half of a record's fields, as read back from bytes.
pub struct FrontFields {
    pub id: u64,
    pub model: String,
    pub brand: String,
    pub specifications: String,
    pub price: u64,
    pub quantity: u32,
}

impl View for FrontFields {
    type V = FrontView;

    open spec fn view(&self) -> FrontView {
        FrontView {
            id: self.id,
            model: self.model@,
            brand: self.brand@,
            specifications: self.specifications@,
            price: self.price,
            quantity: self.quantity,
        }
    }
}

/// The second half of a record's fields, as read back from bytes.
pub struct BackFields {
    pub ram: String,
    pub rom: String,
    pub battery_power: String,
    pub camera_quality: String,
    pub created_at: u64,
    pub updated_at: Option<u64>,
}

impl View for BackFields {
    type V = BackView;

    open spec fn view(&self) -> BackView {
        BackView {
            ram: self.ram@,
            rom: self.rom@,
            battery_power: self.battery_power@,
            camera_quality: self.camera_quality@,
            created_at: self.created_at,
            updated_at: self.updated_at,
        }
    }
}

#[verifier::rlimit(100)]
fn read_front(bytes: &Vec<u8>, off: usize) -> (r: Option<(FrontFields, usize)>)
    requires
        off <= bytes@.len(),
    ensures
        (match r {
            Option::Some(p) => {
                &&& dec_front(bytes@.skip(off as int)) == Option::Some(
                    (p.0@, bytes@.skip(p.1 as int)),
                )
                &&& off <= p.1 <= bytes@.len()
            },
            Option::None => dec_front(bytes@.skip(off as int)) is None,
        }),
{
    let (id, o1) = match read_u64(bytes, off) {
        None => {
            return None;
        },
        Some(p) => p,
    };
    let (model, o2) = match read_str(bytes, o1) {
        None => {
            return None;
        },
        Some(p) => p,
    };
    let (brand, o3) = match read_str(bytes, o2) {
        None => {
            return None;
        },
        Some(p) => p,
    };
    let (specifications, o4) = match read_str(bytes, o3) {
        None => {
            return None;
        },
        Some(p) => p,
    };
    let (price, o5) = match read_u64(bytes, o4) {
        None => {
            return None;
        },
        Some(p) => p,
    };
    let (quantity, o6) = match read_u32(bytes, o5) {
        None => {
            return None;
        },
        Some(p) => p,
    };
    Some((FrontFields { id, model, brand, specifications, price, quantity }, o6))
}

#[verifier::rlimit(100)]
fn read_back(bytes: &Vec<u8>, off: usize) -> (r: Option<(BackFields, usize)>)
    requires
        off <= bytes@.len(),
    ensures
        (match r {
            Option::Some(p) => {
                &&& dec_back(bytes@.skip(off as int)) == Option::Some(
                    (p.0@, bytes@.skip(p.1 as int)),
                )
                &&& off <= p.1 <= bytes@.len()
            },
            Option::None => dec_back(bytes@.skip(off as int)) is None,
        }),
{
    let (ram, o1) = match read_str(bytes, off) {
        None => {
            return None;
        },
        Some(p) => p,
    };
    let (rom, o2) = match read_str(bytes, o1) {
        None => {
            return None;
        },
        Some(p) => p,
    };
    let (battery_power, o3) = match read_str(bytes, o2) {
        None => {
            return None;
        },
        Some(p) => p,
    };
    let (camera_quality, o4) = match read_str(bytes, o3) {
        None => {
            return None;
        },
        Some(p) => p,
    };
    let (created_at, o5) = match read_u64(bytes, o4) {
        None => {
            return None;
        },
        Some(p) => p,
    };
    let (updated_at, o6) = match read_opt_u64(bytes, o5) {
        None => {
            return None;
        },
        Some(p) => p,
    };
    Some((BackFields { ram, rom, battery_power, camera_quality, created_at, updated_at }, o6))
}

/// Deserializes a record from its fixed layout; fails exactly when the
/// bytes are not the encoded form of any record.
#[verifier::rlimit(50)]
pub fn decode(bytes: &Vec<u8>) -> (r: Result<Device, Error>)
    ensures
        r matches Ok(d) ==> spec_decode(bytes@) == Option::Some(d@),
        r is Ok <==> spec_decode(bytes@) is Some,
        r is Err ==> r == Err::<Device, Error>(Error::DecodingError),
{
    proof {
        reveal(spec_decode);
        assert(bytes@.skip(0) =~= bytes@);
    }
    let (f, mid) = match read_front(bytes, 0) {
        None => {
            return Err(Error::DecodingError);
        },
        Some(p) => p,
    };
    let (k, end) = match read_back(bytes, mid) {
        None => {
            return Err(Error::DecodingError);
        },
        Some(p) => p,
    };
    if end == bytes.len() {
        let d = Device {
            id: f.id,
            model: f.model,
            brand: f.brand,
            specifications: f.specifications,
            price: f.price,
            quantity: #[verifier::truncate] (f.quantity as i32),
            ram: k.ram,
            rom: k.rom,
            battery_power: k.battery_power,
            camera_quality: k.camera_quality,
            created_at: k.created_at,
            updated_at: k.updated_at,
        };
        proof {
            assert(bytes@.skip(end as int).len() == 0);
            assert(spec_decode(bytes@) == Option::Some(d@));
        }
        Ok(d)
    } else {
        Err(Error::DecodingError)
    }
}

proof fn lemma_u64_le_inverse(v: u64)
    ensures
        u64_from_le(u64_le(v)) == v,
{
    assert(((((v & 0xff) as u8) as u64) | (((((v >> 8) & 0xff) as u8) as u64) << 8) | (((((v >> 16)
        & 0xff) as u8) as u64) << 16) | (((((v >> 24) & 0xff) as u8) as u64) << 24) | (((((v >> 32)
        & 0xff) as u8) as u64) << 32) | (((((v >> 40) & 0xff) as u8) as u64) << 40) | (((((v >> 48)
        & 0xff) as u8) as u64) << 48) | (((((v >> 56) & 0xff) as u8) as u64) << 56)) == v)
        by (bit_vector);
}

proof fn lemma_u32_le_inverse(v: u32)
    ensures
        u32_from_le(u32_le(v)) == v,
{
    assert(((((v & 0xff) as u8) as u32) | (((((v >> 8) & 0xff) as u8) as u32) << 8) | (((((v >> 16)
        & 0xff) as u8) as u32) << 16) | (((((v >> 24) & 0xff) as u8) as u32) << 24)) == v)
        by (bit_vector);
}

proof fn lemma_dec_u64(v: u64, rest: Seq<u8>)
    ensures
        dec_u64(u64_le(v) + rest) == Option::Some((v, rest)),
{
    let b = u64_le(v) + rest;
    assert(b.take(8) =~= u64_le(v));
    lemma_u64_le_inverse(v);
    assert(b.skip(8) =~= rest);
}

proof fn lemma_dec_u32(v: u32, rest: Seq<u8>)
    ensures
        dec_u32(u32_le(v) + rest) == Option::Some((v, rest)),
{
    let b = u32_le(v) + rest;
    assert(b.take(4) =~= u32_le(v));
    lemma_u32_le_inverse(v);
    assert(b.skip(4) =~= rest);
}

proof fn lemma_dec_str(s: Seq<char>, rest: Seq<u8>)
    requires
        encode_utf8(s).len() <= u64::MAX,
    ensures
        dec_str(enc_str(s) + rest) == Option::Some((s, rest)),
{
    let u = encode_utf8(s);
    let n = u.len() as u64;
    assert(enc_str(s) + rest =~= u64_le(n) + (u + rest));
    lemma_dec_u64(n, u + rest);
    assert((u + rest).take(n as int) =~= u);
    encode_utf8_valid_utf8(s);
    encode_utf8_decode_utf8(s);
    assert((u + rest).skip(n as int) =~= rest);
}

proof fn lemma_dec_opt_u64(o: Option<u64>, rest: Seq<u8>)
    ensures
        dec_opt_u64(enc_opt_u64(o) + rest) == Option::Some((o, rest)),
{
    match o {
        Option::None => {
            let b = enc_opt_u64(o) + rest;
            assert(b[0] == 0u8);
            assert(b.skip(1) =~= rest);
        },
        Option::Some(t) => {
            let b = enc_opt_u64(o) + rest;
            assert(b[0] == 1u8);
            assert(b.skip(1) =~= u64_le(t) + rest);
            lemma_dec_u64(t, rest);
        },
    }
}

proof fn lemma_dec_front(d: DeviceView, rest: Seq<u8>)
    requires
        enc_front(d).len() <= MAX_ENCODED_LEN,
    ensures
        dec_front(enc_front(d) + rest) == Option::Some(
            (FrontView {
                id: d.id,
                model: d.model,
                brand: d.brand,
                specifications: d.specifications,
                price: d.price,
                quantity: d.quantity as u32,
            }, rest),
        ),
{
    let s6 = u32_le(d.quantity as u32) + rest;
    let s5 = u64_le(d.price) + s6;
    let s4 = enc_str(d.specifications) + s5;
    let s3 = enc_str(d.brand) + s4;
    let s2 = enc_str(d.model) + s3;
    let b = enc_front(d) + rest;
    assert(b =~= u64_le(d.id) + s2);
    assert(s2 =~= enc_str(d.model) + s3);
    lemma_dec_u64(d.id, s2);
    lemma_dec_str(d.model, s3);
    lemma_dec_str(d.brand, s4);
    lemma_dec_str(d.specifications, s5);
    lemma_dec_u64(d.price, s6);
    lemma_dec_u32(d.quantity as u32, rest);
}

proof fn lemma_dec_back(d: DeviceView, rest: Seq<u8>)
    requires
        enc_back(d).len() <= MAX_ENCODED_LEN,
    ensures
        dec_back(enc_back(d) + rest) == Option::Some(
            (BackView {
                ram: d.ram,
                rom: d.rom,
                battery_power: d.battery_power,
                camera_quality: d.camera_quality,
                created_at: d.created_at,
                updated_at: d.updated_at,
            }, rest),
        ),
{
    let s6 = enc_opt_u64(d.updated_at) + rest;
    let s5 = u64_le(d.created_at) + s6;
    let s4 = enc_str(d.camera_quality) + s5;
    let s3 = enc_str(d.battery_power) + s4;
    let s2 = enc_str(d.rom) + s3;
    let b = enc_back(d) + rest;
    assert(b =~= enc_str(d.ram) + s2);
    lemma_dec_str(d.ram, s2);
    lemma_dec_str(d.rom, s3);
    lemma_dec_str(d.battery_power, s4);
    lemma_dec_str(d.camera_quality, s5);
    lemma_dec_u64(d.created_at, s6);
    lemma_dec_opt_u64(d.updated_at, rest);
}

/// Decoding is the exact inverse of encoding: any record whose encoded
/// form fits the size bound comes back unchanged, field for field.
#[verifier::rlimit(100)]
pub proof fn lemma_round_trip(d: DeviceView)
    requires
        spec_encode(d).len() <= MAX_ENCODED_LEN,
    ensures
        spec_decode(spec_encode(d)) == Option::Some(d),
{
    let b = spec_encode(d);
    let fv = FrontView {
        id: d.id,
        model: d.model,
        brand: d.brand,
        specifications: d.specifications,
        price: d.price,
        quantity: d.quantity as u32,
    };
    let kv = BackView {
        ram: d.ram,
        rom: d.rom,
        battery_power: d.battery_power,
        camera_quality: d.camera_quality,
        created_at: d.created_at,
        updated_at: d.updated_at,
    };
    lemma_dec_front(d, enc_back(d));
    assert(dec_front(b) == Option::Some((fv, enc_back(d))));
    lemma_dec_back(d, Seq::<u8>::empty());
    assert(enc_back(d) + Seq::<u8>::empty() =~= enc_back(d));
    assert(dec_back(enc_back(d)) == Option::Some((kv, Seq::<u8>::empty())));
    let q = d.quantity;
    assert(((q as u32) as i32) == q) by (bit_vector);
    assert(assemble(fv, kv) == d);
    assert(spec_decode(b) == Option::Some(d)) by {
        reveal(spec_decode);
    };
}

} // verus!
