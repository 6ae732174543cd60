//! Decoding of iBeacon manufacturer data and the search for the target beacon.
use vstd::prelude::*;
use vstd::slice::slice_subrange;

verus! {

/// Length of an iBeacon manufacturer-data payload: 2 header bytes, a 16-byte
/// UUID, a big-endian major, a big-endian minor and a signed transmit power.
pub const IBEACON_LEN: usize = 23;

/// Offset of the UUID within the payload.
pub const UUID_OFFSET: usize = 2;

/// The two header bytes of an Apple iBeacon payload (type and length).
pub const IBEACON_TYPE: u8 = 0x02;
pub const IBEACON_DATA_LEN: u8 = 0x15;

/// A decoded iBeacon record.
#[derive(Clone, Copy, Debug, PartialEq, Eq)]
pub struct IBeaconRecord {
    pub uuid: [u8; 16],
    pub major: u16,
    pub minor: u16,
    pub tx_power: i8,
}

/// The fields of a record as mathematical values.
pub struct RecordFields {
    pub uuid: Seq<u8>,
    pub major: int,
    pub minor: int,
    pub tx_power: int,
}

/// The signed value of a byte read as two's complement.
pub open spec fn signed_byte(b: u8) -> int {
    if b >= 128 { b as int - 256 } else { b as int }
}

/// The big-endian value of two bytes.
pub open spec fn be16(hi: u8, lo: u8) -> int {
    hi as int * 256 + lo as int
}

/// What a manufacturer-data payload decodes to: nothing when it is shorter
/// than the fixed layout, else the fields at their fixed offsets.
pub open spec fn record_of(d: Seq<u8>) -> Option<RecordFields> {
    if d.len() < IBEACON_LEN {
        None
    } else {
        Some(RecordFields {
            uuid: d.subrange(2, 18),
            major: be16(d[18], d[19]),
            minor: be16(d[20], d[21]),
            tx_power: signed_byte(d[22]),
        })
    }
}

/// The payload that carries the given fields, with the standard header.
pub open spec fn payload_of(f: RecordFields) -> Seq<u8> {
    seq![IBEACON_TYPE, IBEACON_DATA_LEN] + f.uuid + seq![
        (f.major / 256) as u8,
        (f.major % 256) as u8,
        (f.minor / 256) as u8,
        (f.minor % 256) as u8,
        (if f.tx_power < 0 { f.tx_power + 256 } else { f.tx_power }) as u8,
    ]
}

/// Whether a payload decodes to a record whose UUID is `target`.
pub open spec fn payload_matches(d: Seq<u8>, target: Seq<u8>) -> bool {
    match record_of(d) {
        Some(f) => f.uuid == target,
        None => false,
    }
}

impl IBeaconRecord {
    pub open spec fn view(&self) -> RecordFields {
        RecordFields {
            uuid: self.uuid@,
            major: self.major as int,
            minor: self.minor as int,
            tx_power: self.tx_power as int,
        }
    }

    /// Decodes a manufacturer-data payload; a payload too short for the full
    /// record yields no record.
    pub fn decode(data: &[u8]) -> (r: Option<IBeaconRecord>)
        ensures
            r.is_some() <==> record_of(data@).is_some(),
            r.is_some() ==> r.unwrap().view() == record_of(data@).unwrap(),
    {
        if data.len() < IBEACON_LEN {
            return None;
        }
        let uuid = match uuid_from_slice(slice_subrange(data, UUID_OFFSET, UUID_OFFSET + 16)) {
            Some(u) => u,
            None => return None,
        };
        let major: u16 = (data[18] as u16) * 256 + data[19] as u16;
        let minor: u16 = (data[20] as u16) * 256 + data[21] as u16;
        let p = data[22];
        let tx_power: i8 = if p >= 128 { (p as i16 - 256) as i8 } else { p as i8 };
        Some(IBeaconRecord { uuid, major, minor, tx_power })
    }

    /// Encodes the record as a manufacturer-data payload with the standard
    /// iBeacon header.
    pub fn to_payload(&self) -> (r: Vec<u8>)
        ensures
            r@ == payload_of(self.view()),
    {
        let mut v: Vec<u8> = Vec::new();
        v.push(IBEACON_TYPE);
        v.push(IBEACON_DATA_LEN);
        let mut i: usize = 0;
        while i < 16
            invariant
                0 <= i <= 16,
                v@ == seq![IBEACON_TYPE, IBEACON_DATA_LEN] + self.uuid@.subrange(0, i as int),
            decreases 16 - i,
        {
            v.push(self.uuid[i]);
            proof {
                assert(self.uuid@.subrange(0, i + 1) == self.uuid@.subrange(0, i as int).push(
                    self.uuid@[i as int],
                ));
            }
            i = i + 1;
        }
        v.push((self.major / 256) as u8);
        v.push((self.major % 256) as u8);
        v.push((self.minor / 256) as u8);
        v.push((self.minor % 256) as u8);
        let t: u8 = if self.tx_power < 0 { (self.tx_power as i16 + 256) as u8 } else { self.tx_power as u8 };
        v.push(t);
        proof {
            assert(self.uuid@.subrange(0, 16) == self.uuid@);
            assert(v@ =~= payload_of(self.view()));
        }
        v
    }

    /// Whether the record's UUID equals `target` byte for byte.
    pub fn matches(&self, target: &[u8; 16]) -> (r: bool)
        ensures
            r == (self.uuid@ == target@),
    {
        uuid_eq(&self.uuid, target)
    }
}

/// Whether two UUIDs are equal byte for byte.
pub fn uuid_eq(a: &[u8; 16], b: &[u8; 16]) -> (r: bool)
    ensures
        r == (a@ == b@),
{
    let mut i: usize = 0;
    while i < 16
        invariant
            0 <= i <= 16,
            forall|k: int| 0 <= k < i ==> a@[k] == b@[k],
        decreases 16 - i,
    {
        if a[i] != b[i] {
            return false;
        }
        i = i + 1;
    }
    proof {
        assert(a@ =~= b@);
    }
    true
}

/// Decodes `data` and tells whether it is an iBeacon payload carrying `target`.
pub fn payload_matches_target(data: &[u8], target: &[u8; 16]) -> (r: bool)
    ensures
        r == payload_matches(data@, target@),
{
    match IBeaconRecord::decode(data) {
        Some(rec) => rec.matches(target),
        None => false,
    }
}

/// One manufacturer-data entry of an advertisement.
#[derive(Clone, Debug)]
pub struct ManufacturerData {
    pub company_id: u16,
    pub data: Vec<u8>,
}

/// The properties a peripheral advertised.
#[derive(Clone, Debug)]
pub struct Advertisement {
    pub manufacturer_data: Vec<ManufacturerData>,
    pub rssi: Option<i16>,
}

/// Whether some manufacturer-data entry of `a` is an iBeacon payload
/// carrying `target`.
pub open spec fn advertises(a: Advertisement, target: Seq<u8>) -> bool {
    exists|j: int|
        0 <= j < a.manufacturer_data@.len() && payload_matches(
            a.manufacturer_data@[j].data@,
            target,
        )
}

/// Whether `i` is the first of `ads` that advertises `target`.
pub open spec fn first_match(ads: Seq<Advertisement>, target: Seq<u8>, i: int) -> bool {
    0 <= i < ads.len() && advertises(ads[i], target) && forall|k: int|
        0 <= k < i ==> !advertises(#[trigger] ads[k], target)
}

/// Whether any of `ads` advertises `target`.
pub open spec fn any_match(ads: Seq<Advertisement>, target: Seq<u8>) -> bool {
    exists|k: int| 0 <= k < ads.len() && advertises(#[trigger] ads[k], target)
}

impl Advertisement {
    /// Whether one of the manufacturer-data entries is an iBeacon payload
    /// carrying `target`; entries that are short or carry another UUID are
    /// skipped.
    pub fn advertises_target(&self, target: &[u8; 16]) -> (r: bool)
        ensures
            r == advertises(*self, target@),
    {
        let mut j: usize = 0;
        while j < self.manufacturer_data.len()
            invariant
                0 <= j <= self.manufacturer_data@.len(),
                forall|k: int|
                    0 <= k < j ==> !payload_matches(
                        #[trigger] self.manufacturer_data@[k].data@,
                        target@,
                    ),
            decreases self.manufacturer_data@.len() - j,
        {
            if payload_matches_target(self.manufacturer_data[j].data.as_slice(), target) {
                return true;
            }
            j = j + 1;
        }
        false
    }
}

/// Finds the first peripheral, in enumeration order, that advertises
/// `target`; later ones are not considered.
pub fn locate(ads: &Vec<Advertisement>, target: &[u8; 16]) -> (r: Option<usize>)
    ensures
        r.is_some() <==> any_match(ads@, target@),
        r.is_some() ==> first_match(ads@, target@, r.unwrap() as int),
{
    let mut i: usize = 0;
    while i < ads.len()
        invariant
            0 <= i <= ads@.len(),
            forall|k: int| 0 <= k < i ==> !advertises(#[trigger] ads@[k], target@),
        decreases ads@.len() - i,
    {
        if ads[i].advertises_target(target) {
            return Some(i);
        }
        i = i + 1;
    }
    None
}

/// A payload shorter than the full layout never decodes to a record.
pub proof fn lemma_short_payload_has_no_record(d: Seq<u8>)
    requires
        d.len() < 23,
    ensures
        record_of(d).is_none(),
        forall|t: Seq<u8>| !payload_matches(d, t),
{
}

/// Decoding the payload built from a record gives back every field, the UUID
/// byte for byte.
pub proof fn lemma_decode_payload_round_trip(rec: IBeaconRecord)
    ensures
        record_of(payload_of(rec.view())).is_some(),
        record_of(payload_of(rec.view())).unwrap() == rec.view(),
        record_of(payload_of(rec.view())).unwrap().uuid == rec.uuid@,
{
    let p = payload_of(rec.view());
    assert(p.len() == 23);
    assert(p.subrange(2, 18) =~= rec.uuid@);
    let f = record_of(p).unwrap();
    assert(f.major == rec.major as int) by (nonlinear_arith)
        requires
            p[18] == (rec.major as int / 256) as u8,
            p[19] == (rec.major as int % 256) as u8,
            f.major == p[18] as int * 256 + p[19] as int,
            0 <= rec.major as int <= 65535,
    ;
    assert(f.minor == rec.minor as int) by (nonlinear_arith)
        requires
            p[20] == (rec.minor as int / 256) as u8,
            p[21] == (rec.minor as int % 256) as u8,
            f.minor == p[20] as int * 256 + p[21] as int,
            0 <= rec.minor as int <= 65535,
    ;
}

/// A payload of the exact length with the standard header is rebuilt byte
/// for byte from the record it decodes to.
pub proof fn lemma_payload_of_decoded_record(d: Seq<u8>)
    requires
        d.len() == 23,
        d[0] == IBEACON_TYPE,
        d[1] == IBEACON_DATA_LEN,
    ensures
        payload_of(record_of(d).unwrap()) == d,
{
    let f = record_of(d).unwrap();
    let p = payload_of(f);
    assert(f.major / 256 == d[18] as int && f.major % 256 == d[19] as int) by (nonlinear_arith)
        requires
            f.major == d[18] as int * 256 + d[19] as int,
            0 <= d[19] < 256,
    ;
    assert(f.minor / 256 == d[20] as int && f.minor % 256 == d[21] as int) by (nonlinear_arith)
        requires
            f.minor == d[20] as int * 256 + d[21] as int,
            0 <= d[21] < 256,
    ;
    assert(p =~= d);
}

/// A payload matches `target` exactly when it decodes and its UUID equals
/// `target`; one differing byte is enough to fail.
pub proof fn lemma_match_is_bytewise(d: Seq<u8>, target: Seq<u8>, i: int)
    requires
        d.len() >= 23,
        target.len() == 16,
        0 <= i < 16,
        d[2 + i] != target[i],
    ensures
        !payload_matches(d, target),
{
    assert(record_of(d).unwrap().uuid[i] == d[2 + i]);
}

/// Relies on uuid::Uuid::from_slice: it accepts exactly 16 bytes and keeps
/// them in order.
#[verifier::external_body]
fn uuid_from_slice(b: &[u8]) -> (r: Option<[u8; 16]>)
    ensures
        r.is_some() <==> b@.len() == 16,
        r.is_some() ==> r.unwrap()@ == b@,
{
    uuid::Uuid::from_slice(b).ok().map(|u| *u.as_bytes())
}

} // verus!
