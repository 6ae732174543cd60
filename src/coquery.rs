//! The discovery pipeline: try each radio in turn, scan it for the target
//! beacon, and read the beacon through a GATT session. The first radio that
//! yields a reading ends the run.
//!
//! The pipeline is a state machine. The caller performs the action of the
//! current state, hands the outcome back as an event, and repeats until the
//! action is to finish.
use vstd::prelude::*;
use crate::gatt::{gatt_action, gatt_next, gatt_run, GattAction, GattEvent, GattState};
use crate::ibeacon::{any_match, first_match, locate, Advertisement};

verus! {

/// How a run fails.
#[derive(Clone, Copy, Debug, PartialEq, Eq)]
pub enum ErrorType {
    /// No radio could be used to search.
    BtUnavailable,
    /// The beacon was searched for but not found or not read.
    BeaconUnavailable,
    /// A failure talking to the beacon once it was found.
    CommunicationFailure,
}

/// What one run looks for, and how long each scan lasts.
#[derive(Clone, Copy, Debug)]
pub struct COQuery {
    /// The UUID the target beacon advertises.
    pub uuid: [u8; 16],
    /// The service that holds the characteristic to read.
    pub service_uuid: [u8; 16],
    /// The characteristic to read.
    pub characteristic_uuid: [u8; 16],
    /// How long to scan each radio, in milliseconds.
    pub scan_interval_ms: u64,
}

/// Where a run stands.
#[derive(Clone, Copy, Debug)]
pub enum PipelineState {
    /// The radios are being enumerated.
    Start,
    /// `radio`, of `radios` in all, is being scanned; `searched` tells whether
    /// an earlier radio completed a scan.
    Scanning { radio: usize, radios: usize, searched: bool },
    /// A session with the beacon that `radio` found at index `peripheral` of
    /// its scan.
    Session { radio: usize, radios: usize, peripheral: usize, gatt: GattState },
    /// The run is over with this outcome.
    Finished(Result<i32, ErrorType>),
}

/// What the radios answered to the last action.
#[derive(Clone, Debug)]
pub enum Event {
    /// How many radios there are; `None` when they could not be enumerated.
    RadiosListed(Option<usize>),
    /// The advertisements of the peripherals seen by a scan, in enumeration
    /// order; `None` when starting the scan or enumerating failed.
    Scanned(Option<Vec<Advertisement>>),
    /// An answer within the session with the beacon.
    Gatt(GattEvent),
}

/// What the caller is to do next.
#[derive(Clone, Copy, Debug)]
pub enum Action {
    ListRadios,
    /// Start a scan on `radio`, wait `window_ms`, then enumerate peripherals.
    Scan { radio: usize, window_ms: u64 },
    /// A step of the session with `peripheral`, as found by `radio`.
    Gatt { radio: usize, peripheral: usize, step: GattAction },
    Finish(Result<i32, ErrorType>),
}

/// The state after `radio`'s attempt failed: the next radio when there is
/// one, else the end of the run. The run fails with `BeaconUnavailable` when
/// some radio completed a scan, with `BtUnavailable` when none did.
pub open spec fn advance(radio: int, radios: usize, searched: bool) -> PipelineState {
    if radio + 1 < radios {
        PipelineState::Scanning { radio: (radio + 1) as usize, radios, searched }
    } else if searched {
        PipelineState::Finished(Err(ErrorType::BeaconUnavailable))
    } else {
        PipelineState::Finished(Err(ErrorType::BtUnavailable))
    }
}

/// The state a run of `q` moves to on an event; an event that does not
/// answer the current state's action leaves the state as it is.
pub open spec fn pipeline_next(q: COQuery, st: PipelineState, ev: Event) -> PipelineState {
    match st {
        PipelineState::Start => match ev {
            Event::RadiosListed(Some(n)) => if n == 0 {
                PipelineState::Finished(Err(ErrorType::BtUnavailable))
            } else {
                PipelineState::Scanning { radio: 0, radios: n, searched: false }
            },
            Event::RadiosListed(None) => PipelineState::Finished(Err(ErrorType::BtUnavailable)),
            _ => st,
        },
        PipelineState::Scanning { radio, radios, searched } => match ev {
            Event::Scanned(None) => advance(radio as int, radios, searched),
            Event::Scanned(Some(ads)) => if any_match(ads@, q.uuid@) {
                PipelineState::Session {
                    radio,
                    radios,
                    peripheral: (choose|p: int| first_match(ads@, q.uuid@, p)) as usize,
                    gatt: GattState::CheckingConnection,
                }
            } else {
                advance(radio as int, radios, true)
            },
            _ => st,
        },
        PipelineState::Session { radio, radios, peripheral, gatt } => match ev {
            Event::Gatt(e) => match gatt_next(gatt, e, q.service_uuid@, q.characteristic_uuid@) {
                GattState::Finished(Ok(v)) => PipelineState::Finished(Ok(v)),
                GattState::Finished(Err(_)) => advance(radio as int, radios, true),
                g => PipelineState::Session { radio, radios, peripheral, gatt: g },
            },
            _ => st,
        },
        PipelineState::Finished(_) => st,
    }
}

/// The action that a state of a run of `q` asks for.
pub open spec fn pipeline_action(q: COQuery, st: PipelineState) -> Action {
    match st {
        PipelineState::Start => Action::ListRadios,
        PipelineState::Scanning { radio, .. } => Action::Scan { radio, window_ms: q.scan_interval_ms },
        PipelineState::Session { radio, peripheral, gatt, .. } => Action::Gatt {
            radio,
            peripheral,
            step: gatt_action(gatt),
        },
        PipelineState::Finished(r) => Action::Finish(r),
    }
}

/// The state a run of `q` reaches from `st` through `evs`, in order.
pub open spec fn pipeline_run(q: COQuery, st: PipelineState, evs: Seq<Event>) -> PipelineState
    decreases evs.len(),
{
    if evs.len() == 0 {
        st
    } else {
        pipeline_run(q, pipeline_next(q, st, evs[0]), evs.drop_first())
    }
}

/// The events that carry the given session answers.
pub open spec fn gatt_events(evs: Seq<GattEvent>) -> Seq<Event> {
    evs.map_values(|e: GattEvent| Event::Gatt(e))
}

/// A finished run stays finished, whatever answers arrive after.
pub proof fn lemma_finished_stays(q: COQuery, r: Result<i32, ErrorType>, evs: Seq<Event>)
    ensures
        pipeline_run(q, PipelineState::Finished(r), evs) == PipelineState::Finished(r),
    decreases evs.len(),
{
    if evs.len() > 0 {
        lemma_finished_stays(q, r, evs.drop_first());
    }
}

proof fn lemma_run_append(q: COQuery, st: PipelineState, a: Seq<Event>, b: Seq<Event>)
    ensures
        pipeline_run(q, st, a + b) == pipeline_run(q, pipeline_run(q, st, a), b),
    decreases a.len(),
{
    if a.len() == 0 {
        assert(a + b =~= b);
    } else {
        assert((a + b).drop_first() =~= a.drop_first() + b);
        assert((a + b)[0] == a[0]);
        lemma_run_append(q, pipeline_next(q, st, a[0]), a.drop_first(), b);
    }
}

proof fn lemma_session_to_reading(
    q: COQuery,
    radio: usize,
    radios: usize,
    peripheral: usize,
    g: GattState,
    evs: Seq<GattEvent>,
    v: i32,
)
    requires
        !(g is Finished),
        gatt_run(g, evs, q.service_uuid@, q.characteristic_uuid@) == GattState::Finished(Ok(v)),
    ensures
        pipeline_run(q, PipelineState::Session { radio, radios, peripheral, gatt: g }, gatt_events(evs))
            == PipelineState::Finished(Ok(v)),
    decreases evs.len(),
{
    let s = q.service_uuid@;
    let c = q.characteristic_uuid@;
    if evs.len() > 0 {
        let ge = gatt_events(evs);
        assert(ge[0] == Event::Gatt(evs[0]));
        assert(ge.drop_first() =~= gatt_events(evs.drop_first()));
        let g1 = gatt_next(g, evs[0], s, c);
        match g1 {
            GattState::Finished(r) => {
                crate::gatt::lemma_gatt_finished_stays(r, evs.drop_first(), s, c);
                lemma_finished_stays(q, r, ge.drop_first());
            },
            _ => {
                lemma_session_to_reading(q, radio, radios, peripheral, g1, evs.drop_first(), v);
            },
        }
    }
}

/// A run with no radio fails with `BtUnavailable` at once and never scans:
/// it is over, whatever answers arrive after.
pub proof fn lemma_no_radio_no_scan(q: COQuery, later: Seq<Event>)
    ensures
        pipeline_next(q, PipelineState::Start, Event::RadiosListed(Some(0)))
            == PipelineState::Finished(Err(ErrorType::BtUnavailable)),
        pipeline_action(q, PipelineState::Finished(Err(ErrorType::BtUnavailable)))
            == Action::Finish(Err(ErrorType::BtUnavailable)),
        pipeline_run(q, PipelineState::Start, seq![Event::RadiosListed(Some(0))] + later)
            == PipelineState::Finished(Err(ErrorType::BtUnavailable)),
{
    let evs = seq![Event::RadiosListed(Some(0))] + later;
    assert(evs.drop_first() =~= later);
    lemma_finished_stays(q, Err(ErrorType::BtUnavailable), later);
}

/// With two radios, where the first radio's scan finds no beacon and the
/// second finds it at `p` and the session reads `v`, the run ends with `v`
/// and stays over, whatever answers arrive after.
pub proof fn lemma_second_radio_reading(
    q: COQuery,
    ads1: Vec<Advertisement>,
    ads2: Vec<Advertisement>,
    p: int,
    session: Seq<GattEvent>,
    v: i32,
    later: Seq<Event>,
)
    requires
        !any_match(ads1@, q.uuid@),
        first_match(ads2@, q.uuid@, p),
        gatt_run(GattState::CheckingConnection, session, q.service_uuid@, q.characteristic_uuid@)
            == GattState::Finished(Ok(v)),
    ensures
        pipeline_run(
            q,
            PipelineState::Start,
            seq![Event::RadiosListed(Some(2)), Event::Scanned(Some(ads1)), Event::Scanned(Some(ads2))],
        ) == (PipelineState::Session {
            radio: 1,
            radios: 2,
            peripheral: p as usize,
            gatt: GattState::CheckingConnection,
        }),
        pipeline_run(
            q,
            PipelineState::Start,
            seq![Event::RadiosListed(Some(2)), Event::Scanned(Some(ads1)), Event::Scanned(Some(ads2))]
                + gatt_events(session) + later,
        ) == PipelineState::Finished(Ok(v)),
        pipeline_action(q, PipelineState::Finished(Ok(v))) == Action::Finish(Ok(v)),
{
    let scans = seq![Event::RadiosListed(Some(2)), Event::Scanned(Some(ads1)), Event::Scanned(Some(ads2))];
    let c = choose|k: int| first_match(ads2@, q.uuid@, k);
    assert(any_match(ads2@, q.uuid@));
    assert(c == p) by {
        if c < p {
            assert(!crate::ibeacon::advertises(ads2@[c], q.uuid@));
        } else if c > p {
            assert(!crate::ibeacon::advertises(ads2@[p], q.uuid@));
        }
    }
    let s1 = PipelineState::Scanning { radio: 0, radios: 2, searched: false };
    let s2 = PipelineState::Scanning { radio: 1, radios: 2, searched: true };
    let s3 = PipelineState::Session {
        radio: 1,
        radios: 2,
        peripheral: p as usize,
        gatt: GattState::CheckingConnection,
    };
    assert(pipeline_next(q, PipelineState::Start, scans[0]) == s1);
    assert(pipeline_next(q, s1, scans[1]) == s2);
    assert(pipeline_next(q, s2, scans[2]) == s3);
    assert(scans.drop_first()[0] == scans[1]);
    assert(scans.drop_first().drop_first()[0] == scans[2]);
    assert(scans.drop_first().drop_first().drop_first().len() == 0);
    assert(pipeline_run(q, PipelineState::Start, scans) == pipeline_run(q, s1, scans.drop_first()));
    assert(pipeline_run(q, s1, scans.drop_first()) == pipeline_run(
        q,
        s2,
        scans.drop_first().drop_first(),
    ));
    assert(pipeline_run(q, s2, scans.drop_first().drop_first()) == pipeline_run(
        q,
        s3,
        scans.drop_first().drop_first().drop_first(),
    ));
    lemma_run_append(q, PipelineState::Start, scans, gatt_events(session));
    lemma_session_to_reading(q, 1, 2, p as usize, GattState::CheckingConnection, session, v);
    lemma_run_append(q, PipelineState::Start, scans + gatt_events(session), later);
    lemma_finished_stays(q, Ok(v), later);
}

/// Once the session holds a reading, a failed disconnect still ends the run
/// with that reading.
pub proof fn lemma_disconnect_failure_keeps_success(
    q: COQuery,
    radio: usize,
    radios: usize,
    peripheral: usize,
    v: i32,
)
    ensures
        pipeline_next(
            q,
            PipelineState::Session { radio, radios, peripheral, gatt: GattState::Disconnecting(Ok(v)) },
            Event::Gatt(GattEvent::Disconnected(false)),
        ) == PipelineState::Finished(Ok(v)),
{
}

impl COQuery {
    /// The state every run starts in.
    pub fn start(&self) -> (r: PipelineState)
        ensures
            r == PipelineState::Start,
    {
        PipelineState::Start
    }

    /// The action `st` asks for.
    pub fn action(&self, st: &PipelineState) -> (r: Action)
        ensures
            r == pipeline_action(*self, *st),
    {
        match *st {
            PipelineState::Start => Action::ListRadios,
            PipelineState::Scanning { radio, .. } => Action::Scan { radio, window_ms: self.scan_interval_ms },
            PipelineState::Session { radio, peripheral, gatt, .. } => Action::Gatt {
                radio,
                peripheral,
                step: gatt.action(),
            },
            PipelineState::Finished(r) => Action::Finish(r),
        }
    }

    fn advance(radio: usize, radios: usize, searched: bool) -> (r: PipelineState)
        ensures
            r == advance(radio as int, radios, searched),
    {
        if radios > 0 && radio < radios - 1 {
            PipelineState::Scanning { radio: radio + 1, radios, searched }
        } else if searched {
            PipelineState::Finished(Err(ErrorType::BeaconUnavailable))
        } else {
            PipelineState::Finished(Err(ErrorType::BtUnavailable))
        }
    }

    /// The state a run moves to from `st` on `ev`.
    pub fn next(&self, st: PipelineState, ev: Event) -> (r: PipelineState)
        ensures
            r == pipeline_next(*self, st, ev),
    {
        match st {
            PipelineState::Start => match ev {
                Event::RadiosListed(Some(n)) => if n == 0 {
                    PipelineState::Finished(Err(ErrorType::BtUnavailable))
                } else {
                    PipelineState::Scanning { radio: 0, radios: n, searched: false }
                },
                Event::RadiosListed(None) => PipelineState::Finished(Err(ErrorType::BtUnavailable)),
                _ => st,
            },
            PipelineState::Scanning { radio, radios, searched } => match ev {
                Event::Scanned(None) => COQuery::advance(radio, radios, searched),
                Event::Scanned(Some(ads)) => match locate(&ads, &self.uuid) {
                    Some(p) => {
                        proof {
                            let c = choose|p: int| first_match(ads@, self.uuid@, p);
                            if c < p {
                                assert(!crate::ibeacon::advertises(ads@[c], self.uuid@));
                            } else if c > p {
                                assert(!crate::ibeacon::advertises(ads@[p as int], self.uuid@));
                            }
                        }
                        PipelineState::Session {
                            radio,
                            radios,
                            peripheral: p,
                            gatt: GattState::CheckingConnection,
                        }
                    },
                    None => COQuery::advance(radio, radios, true),
                },
                _ => st,
            },
            PipelineState::Session { radio, radios, peripheral, gatt } => match ev {
                Event::Gatt(e) => match gatt.next(e, &self.service_uuid, &self.characteristic_uuid) {
                    GattState::Finished(Ok(v)) => PipelineState::Finished(Ok(v)),
                    GattState::Finished(Err(_)) => COQuery::advance(radio, radios, true),
                    g => PipelineState::Session { radio, radios, peripheral, gatt: g },
                },
                _ => st,
            },
            PipelineState::Finished(_) => st,
        }
    }
}

} // verus!
