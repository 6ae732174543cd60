//! The session with a matched peripheral: connect when needed, discover the
//! services, find the target characteristic, read it, and disconnect.
//!
//! The session is a state machine. The caller performs the action of the
//! current state, hands the outcome back as an event, and repeats until the
//! action is a report.
use vstd::prelude::*;
use crate::coquery::ErrorType;
use crate::ibeacon::uuid_eq;

verus! {

/// What a characteristic allows.
#[derive(Clone, Copy, Debug, PartialEq, Eq)]
pub struct CharFlags {
    pub readable: bool,
    pub writable: bool,
    pub notifiable: bool,
}

/// A characteristic as discovered on a connected peripheral.
#[derive(Clone, Copy, Debug)]
pub struct GattCharacteristic {
    pub uuid: [u8; 16],
    pub flags: CharFlags,
}

/// A service as discovered on a connected peripheral, with its
/// characteristics.
#[derive(Clone, Debug)]
pub struct GattService {
    pub uuid: [u8; 16],
    pub characteristics: Vec<GattCharacteristic>,
}

/// Where a session stands.
#[derive(Clone, Copy, Debug)]
pub enum GattState {
    /// The connection state is being queried.
    CheckingConnection,
    /// A connection is being made.
    Connecting,
    /// Services are being discovered.
    Discovering,
    /// The characteristic at these indices of the discovered services is
    /// being read.
    Reading { service: usize, characteristic: usize },
    /// The outcome is settled; the peripheral is being disconnected.
    Disconnecting(Result<i32, ErrorType>),
    /// The session is over with this outcome.
    Finished(Result<i32, ErrorType>),
}

/// What the peripheral answered to the last action.
#[derive(Clone, Debug)]
pub enum GattEvent {
    /// Whether it is connected; `None` when that could not be told.
    ConnectionState(Option<bool>),
    /// Whether the connect call succeeded.
    Connected(bool),
    /// The discovered services; `None` when discovery failed.
    ServicesDiscovered(Option<Vec<GattService>>),
    /// The value read; `None` when the read failed.
    ValueRead(Option<Vec<u8>>),
    /// Whether the disconnect call succeeded.
    Disconnected(bool),
}

/// What the caller is to do next.
#[derive(Clone, Copy, Debug)]
pub enum GattAction {
    QueryConnection,
    Connect,
    DiscoverServices,
    Read { service: usize, characteristic: usize },
    Disconnect,
    Report(Result<i32, ErrorType>),
}

pub open spec fn first_service(svcs: Seq<GattService>, target: Seq<u8>, i: int) -> bool {
    0 <= i < svcs.len() && svcs[i].uuid@ == target && forall|k: int|
        0 <= k < i ==> (#[trigger] svcs[k]).uuid@ != target
}

pub open spec fn has_service(svcs: Seq<GattService>, target: Seq<u8>) -> bool {
    exists|i: int| 0 <= i < svcs.len() && (#[trigger] svcs[i]).uuid@ == target
}

pub open spec fn first_characteristic(cs: Seq<GattCharacteristic>, target: Seq<u8>, j: int) -> bool {
    0 <= j < cs.len() && cs[j].uuid@ == target && forall|k: int|
        0 <= k < j ==> (#[trigger] cs[k]).uuid@ != target
}

pub open spec fn has_characteristic(cs: Seq<GattCharacteristic>, target: Seq<u8>) -> bool {
    exists|j: int| 0 <= j < cs.len() && (#[trigger] cs[j]).uuid@ == target
}

/// The first service with the target UUID, and in it the first
/// characteristic with the target UUID; none when either is absent.
pub open spec fn target_location(svcs: Seq<GattService>, s: Seq<u8>, c: Seq<u8>) -> Option<(int, int)> {
    if has_service(svcs, s) {
        let i = choose|i: int| first_service(svcs, s, i);
        if has_characteristic(svcs[i].characteristics@, c) {
            Some((i, choose|j: int| first_characteristic(svcs[i].characteristics@, c, j)))
        } else {
            None
        }
    } else {
        None
    }
}

/// The two's-complement value of `v`, an unsigned value below `modulus`.
pub open spec fn signed_of(v: int, modulus: int) -> int {
    if v >= modulus / 2 { v - modulus } else { v }
}

/// The reading a characteristic value carries: a little-endian signed
/// integer of 1, 2 or 4 bytes, as GATT lays out multi-byte values. Other
/// lengths carry none.
pub open spec fn reading_of(b: Seq<u8>) -> Option<int> {
    if b.len() == 1 {
        Some(signed_of(b[0] as int, 256))
    } else if b.len() == 2 {
        Some(signed_of(b[0] + 256 * b[1], 65536))
    } else if b.len() == 4 {
        Some(signed_of(b[0] + 256 * b[1] + 65536 * b[2] + 16777216 * b[3], 4294967296))
    } else {
        None
    }
}

/// The state a session moves to on an event; an event that does not answer
/// the current state's action leaves the state as it is.
pub open spec fn gatt_next(st: GattState, ev: GattEvent, s: Seq<u8>, c: Seq<u8>) -> GattState {
    match st {
        GattState::CheckingConnection => match ev {
            GattEvent::ConnectionState(None) => GattState::Finished(Err(ErrorType::CommunicationFailure)),
            GattEvent::ConnectionState(Some(true)) => GattState::Discovering,
            GattEvent::ConnectionState(Some(false)) => GattState::Connecting,
            _ => st,
        },
        GattState::Connecting => match ev {
            GattEvent::Connected(true) => GattState::Discovering,
            GattEvent::Connected(false) => GattState::Finished(Err(ErrorType::CommunicationFailure)),
            _ => st,
        },
        GattState::Discovering => match ev {
            GattEvent::ServicesDiscovered(Some(v)) => match target_location(v@, s, c) {
                Some((i, j)) => GattState::Reading { service: i as usize, characteristic: j as usize },
                None => GattState::Disconnecting(Err(ErrorType::CommunicationFailure)),
            },
            GattEvent::ServicesDiscovered(None) => GattState::Disconnecting(Err(ErrorType::CommunicationFailure)),
            _ => st,
        },
        GattState::Reading { .. } => match ev {
            GattEvent::ValueRead(Some(b)) => match reading_of(b@) {
                Some(x) => GattState::Disconnecting(Ok(x as i32)),
                None => GattState::Disconnecting(Err(ErrorType::CommunicationFailure)),
            },
            GattEvent::ValueRead(None) => GattState::Disconnecting(Err(ErrorType::CommunicationFailure)),
            _ => st,
        },
        GattState::Disconnecting(r) => match ev {
            GattEvent::Disconnected(_) => GattState::Finished(r),
            _ => st,
        },
        GattState::Finished(_) => st,
    }
}

/// The action that a state asks for.
pub open spec fn gatt_action(st: GattState) -> GattAction {
    match st {
        GattState::CheckingConnection => GattAction::QueryConnection,
        GattState::Connecting => GattAction::Connect,
        GattState::Discovering => GattAction::DiscoverServices,
        GattState::Reading { service, characteristic } => GattAction::Read { service, characteristic },
        GattState::Disconnecting(_) => GattAction::Disconnect,
        GattState::Finished(r) => GattAction::Report(r),
    }
}

/// The state a session reaches from `st` through `evs`, in order.
pub open spec fn gatt_run(st: GattState, evs: Seq<GattEvent>, s: Seq<u8>, c: Seq<u8>) -> GattState
    decreases evs.len(),
{
    if evs.len() == 0 {
        st
    } else {
        gatt_run(gatt_next(st, evs[0], s, c), evs.drop_first(), s, c)
    }
}

/// A finished session stays finished, whatever answers arrive after.
pub proof fn lemma_gatt_finished_stays(r: Result<i32, ErrorType>, evs: Seq<GattEvent>, s: Seq<u8>, c: Seq<u8>)
    ensures
        gatt_run(GattState::Finished(r), evs, s, c) == GattState::Finished(r),
    decreases evs.len(),
{
    if evs.len() > 0 {
        lemma_gatt_finished_stays(r, evs.drop_first(), s, c);
    }
}

/// When the discovered services lack the target service, the session fails
/// with a communication failure, yet asks for one disconnect: after its
/// answer, whether the disconnect worked or not, the session is over and
/// asks for nothing but the report.
pub proof fn lemma_missing_service_still_disconnects(
    svcs: Vec<GattService>,
    s: Seq<u8>,
    c: Seq<u8>,
    disconnected: bool,
    later: Seq<GattEvent>,
)
    requires
        !has_service(svcs@, s),
    ensures
        gatt_next(GattState::Discovering, GattEvent::ServicesDiscovered(Some(svcs)), s, c)
            == GattState::Disconnecting(Err(ErrorType::CommunicationFailure)),
        gatt_action(GattState::Disconnecting(Err(ErrorType::CommunicationFailure)))
            == GattAction::Disconnect,
        gatt_run(
            GattState::Discovering,
            seq![GattEvent::ServicesDiscovered(Some(svcs)), GattEvent::Disconnected(disconnected)] + later,
            s,
            c,
        ) == GattState::Finished(Err(ErrorType::CommunicationFailure)),
        gatt_action(GattState::Finished(Err(ErrorType::CommunicationFailure)))
            == GattAction::Report(Err(ErrorType::CommunicationFailure)),
{
    let evs = seq![GattEvent::ServicesDiscovered(Some(svcs)), GattEvent::Disconnected(disconnected)] + later;
    let failed = Err(ErrorType::CommunicationFailure);
    assert(target_location(svcs@, s, c).is_none());
    assert(evs[0] == GattEvent::ServicesDiscovered(Some(svcs)));
    assert(evs.drop_first()[0] == GattEvent::Disconnected(disconnected));
    assert(evs.drop_first().drop_first() =~= later);
    assert(gatt_run(GattState::Discovering, evs, s, c) == gatt_run(
        GattState::Disconnecting(failed),
        evs.drop_first(),
        s,
        c,
    ));
    assert(gatt_run(GattState::Disconnecting(failed), evs.drop_first(), s, c) == gatt_run(
        GattState::Finished(failed),
        later,
        s,
        c,
    ));
    lemma_gatt_finished_stays(failed, later, s, c);
}

/// A value that was read settles the outcome: a failed disconnect after it
/// still ends the session with the reading.
pub proof fn lemma_disconnect_failure_keeps_reading(
    service: usize,
    characteristic: usize,
    value: Vec<u8>,
    s: Seq<u8>,
    c: Seq<u8>,
)
    requires
        reading_of(value@).is_some(),
    ensures
        gatt_run(
            GattState::Reading { service, characteristic },
            seq![GattEvent::ValueRead(Some(value)), GattEvent::Disconnected(false)],
            s,
            c,
        ) == GattState::Finished(Ok(reading_of(value@).unwrap() as i32)),
{
    let evs = seq![GattEvent::ValueRead(Some(value)), GattEvent::Disconnected(false)];
    let done = Ok(reading_of(value@).unwrap() as i32);
    assert(evs[0] == GattEvent::ValueRead(Some(value)));
    assert(evs.drop_first()[0] == GattEvent::Disconnected(false));
    assert(evs.drop_first().drop_first().len() == 0);
    assert(gatt_run(GattState::Reading { service, characteristic }, evs, s, c) == gatt_run(
        GattState::Disconnecting(done),
        evs.drop_first(),
        s,
        c,
    ));
    assert(gatt_run(GattState::Disconnecting(done), evs.drop_first(), s, c) == gatt_run(
        GattState::Finished(done),
        evs.drop_first().drop_first(),
        s,
        c,
    ));
}

/// A peripheral that is already connected is not connected again: the
/// session goes straight to discovering services.
pub proof fn lemma_connected_peripheral_skips_connect(s: Seq<u8>, c: Seq<u8>)
    ensures
        gatt_next(GattState::CheckingConnection, GattEvent::ConnectionState(Some(true)), s, c)
            == GattState::Discovering,
        gatt_action(GattState::Discovering) == GattAction::DiscoverServices,
{
}

/// Finds the first service whose UUID is `target`.
pub fn find_service(svcs: &Vec<GattService>, target: &[u8; 16]) -> (r: Option<usize>)
    ensures
        r.is_some() <==> has_service(svcs@, target@),
        r.is_some() ==> first_service(svcs@, target@, r.unwrap() as int),
{
    let mut i: usize = 0;
    while i < svcs.len()
        invariant
            0 <= i <= svcs@.len(),
            forall|k: int| 0 <= k < i ==> (#[trigger] svcs@[k]).uuid@ != target@,
        decreases svcs@.len() - i,
    {
        if uuid_eq(&svcs[i].uuid, target) {
            return Some(i);
        }
        i = i + 1;
    }
    None
}

/// Finds the first characteristic whose UUID is `target`.
pub fn find_characteristic(cs: &Vec<GattCharacteristic>, target: &[u8; 16]) -> (r: Option<usize>)
    ensures
        r.is_some() <==> has_characteristic(cs@, target@),
        r.is_some() ==> first_characteristic(cs@, target@, r.unwrap() as int),
{
    let mut j: usize = 0;
    while j < cs.len()
        invariant
            0 <= j <= cs@.len(),
            forall|k: int| 0 <= k < j ==> (#[trigger] cs@[k]).uuid@ != target@,
        decreases cs@.len() - j,
    {
        if uuid_eq(&cs[j].uuid, target) {
            return Some(j);
        }
        j = j + 1;
    }
    None
}

/// Locates the target characteristic among the discovered services.
pub fn locate_characteristic(svcs: &Vec<GattService>, s: &[u8; 16], c: &[u8; 16]) -> (r: Option<(usize, usize)>)
    ensures
        r.is_some() <==> target_location(svcs@, s@, c@).is_some(),
        r.is_some() ==> r.unwrap().0 as int == target_location(svcs@, s@, c@).unwrap().0
            && r.unwrap().1 as int == target_location(svcs@, s@, c@).unwrap().1,
{
    match find_service(svcs, s) {
        None => None,
        Some(i) => {
            let ghost ci = choose|i: int| first_service(svcs@, s@, i);
            assert(ci == i as int) by {
                if ci < i {
                    assert(svcs@[ci].uuid@ != s@);
                } else if ci > i {
                    assert(svcs@[i as int].uuid@ != s@);
                }
            }
            match find_characteristic(&svcs[i].characteristics, c) {
                None => None,
                Some(j) => {
                    let ghost cs = svcs@[i as int].characteristics@;
                    let ghost cj = choose|j: int| first_characteristic(cs, c@, j);
                    assert(cj == j as int) by {
                        if cj < j {
                            assert(cs[cj].uuid@ != c@);
                        } else if cj > j {
                            assert(cs[j as int].uuid@ != c@);
                        }
                    }
                    Some((i, j))
                }
            }
        }
    }
}

/// Decodes the reading a characteristic value carries.
pub fn decode_reading(b: &[u8]) -> (r: Option<i32>)
    ensures
        r.is_some() <==> reading_of(b@).is_some(),
        r.is_some() ==> r.unwrap() as int == reading_of(b@).unwrap(),
{
    if b.len() == 1 {
        let v: i64 = b[0] as i64;
        Some(if v >= 128 { (v - 256) as i32 } else { v as i32 })
    } else if b.len() == 2 {
        let v: i64 = b[0] as i64 + 256 * (b[1] as i64);
        Some(if v >= 32768 { (v - 65536) as i32 } else { v as i32 })
    } else if b.len() == 4 {
        let v: i64 = b[0] as i64 + 256 * (b[1] as i64) + 65536 * (b[2] as i64) + 16777216 * (b[3] as i64);
        Some(if v >= 2147483648 { (v - 4294967296) as i32 } else { v as i32 })
    } else {
        None
    }
}

impl GattState {
    /// The action this state asks for.
    pub fn action(&self) -> (r: GattAction)
        ensures
            r == gatt_action(*self),
    {
        match *self {
            GattState::CheckingConnection => GattAction::QueryConnection,
            GattState::Connecting => GattAction::Connect,
            GattState::Discovering => GattAction::DiscoverServices,
            GattState::Reading { service, characteristic } => GattAction::Read { service, characteristic },
            GattState::Disconnecting(_) => GattAction::Disconnect,
            GattState::Finished(r) => GattAction::Report(r),
        }
    }

    /// The state the session moves to on `ev`, for the target service `s`
    /// and characteristic `c`.
    pub fn next(self, ev: GattEvent, s: &[u8; 16], c: &[u8; 16]) -> (r: GattState)
        ensures
            r == gatt_next(self, ev, s@, c@),
    {
        match self {
            GattState::CheckingConnection => match ev {
                GattEvent::ConnectionState(None) => GattState::Finished(Err(ErrorType::CommunicationFailure)),
                GattEvent::ConnectionState(Some(true)) => GattState::Discovering,
                GattEvent::ConnectionState(Some(false)) => GattState::Connecting,
                _ => self,
            },
            GattState::Connecting => match ev {
                GattEvent::Connected(true) => GattState::Discovering,
                GattEvent::Connected(false) => GattState::Finished(Err(ErrorType::CommunicationFailure)),
                _ => self,
            },
            GattState::Discovering => match ev {
                GattEvent::ServicesDiscovered(Some(v)) => match locate_characteristic(&v, s, c) {
                    Some((i, j)) => GattState::Reading { service: i, characteristic: j },
                    None => GattState::Disconnecting(Err(ErrorType::CommunicationFailure)),
                },
                GattEvent::ServicesDiscovered(None) => GattState::Disconnecting(Err(ErrorType::CommunicationFailure)),
                _ => self,
            },
            GattState::Reading { .. } => match ev {
                GattEvent::ValueRead(Some(b)) => match decode_reading(b.as_slice()) {
                    Some(x) => GattState::Disconnecting(Ok(x)),
                    None => GattState::Disconnecting(Err(ErrorType::CommunicationFailure)),
                },
                GattEvent::ValueRead(None) => GattState::Disconnecting(Err(ErrorType::CommunicationFailure)),
                _ => self,
            },
            GattState::Disconnecting(r) => match ev {
                GattEvent::Disconnected(_) => GattState::Finished(r),
                _ => self,
            },
            GattState::Finished(_) => self,
        }
    }
}

} // verus!
