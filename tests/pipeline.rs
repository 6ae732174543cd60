use concierge::coquery::{Action, COQuery, ErrorType, Event, PipelineState};
use concierge::gatt::{CharFlags, GattAction, GattCharacteristic, GattEvent, GattService};
use concierge::ibeacon::{Advertisement, IBeaconRecord, ManufacturerData};

const BEACON: [u8; 16] = [0xbe; 16];
const SVC: [u8; 16] = [0x11; 16];
const CHR: [u8; 16] = [0x22; 16];

fn query() -> COQuery {
    COQuery { uuid: BEACON, service_uuid: SVC, characteristic_uuid: CHR, scan_interval_ms: 4000 }
}

fn adv(uuid: [u8; 16]) -> Advertisement {
    let data = IBeaconRecord { uuid, major: 1, minor: 2, tx_power: -60 }.to_payload();
    Advertisement { manufacturer_data: vec![ManufacturerData { company_id: 0x004c, data }], rssi: None }
}

fn services() -> Vec<GattService> {
    let flags = CharFlags { readable: true, writable: false, notifiable: true };
    vec![GattService { uuid: SVC, characteristics: vec![GattCharacteristic { uuid: CHR, flags }] }]
}

fn drive(events: Vec<Event>) -> (PipelineState, Vec<Action>) {
    let q = query();
    let mut st = q.start();
    let mut actions = vec![q.action(&st)];
    for ev in events {
        st = q.next(st, ev);
        actions.push(q.action(&st));
    }
    (st, actions)
}

fn successful_session(value: Vec<u8>) -> Vec<Event> {
    vec![
        Event::Gatt(GattEvent::ConnectionState(Some(true))),
        Event::Gatt(GattEvent::ServicesDiscovered(Some(services()))),
        Event::Gatt(GattEvent::ValueRead(Some(value))),
        Event::Gatt(GattEvent::Disconnected(true)),
    ]
}

fn scans(actions: &[Action]) -> usize {
    actions.iter().filter(|a| matches!(a, Action::Scan { .. })).count()
}

#[test]
fn zero_radios_is_bt_unavailable() {
    let (st, actions) = drive(vec![Event::RadiosListed(Some(0))]);
    assert!(matches!(st, PipelineState::Finished(Err(ErrorType::BtUnavailable))));
    assert!(matches!(actions[0], Action::ListRadios));
    assert!(matches!(actions[1], Action::Finish(Err(ErrorType::BtUnavailable))));
    assert_eq!(scans(&actions), 0);
}

#[test]
fn no_manager_is_bt_unavailable() {
    let (st, _) = drive(vec![Event::RadiosListed(None)]);
    assert!(matches!(st, PipelineState::Finished(Err(ErrorType::BtUnavailable))));
}

#[test]
fn second_radio_reads_after_first_finds_nothing() {
    let mut events = vec![
        Event::RadiosListed(Some(3)),
        Event::Scanned(Some(vec![adv([0x01; 16])])),
        Event::Scanned(Some(vec![adv([0x02; 16]), adv(BEACON)])),
    ];
    events.extend(successful_session(vec![0x15, 0x00]));
    let (st, actions) = drive(events);
    assert!(matches!(st, PipelineState::Finished(Ok(21))));
    assert!(matches!(actions[1], Action::Scan { radio: 0, window_ms: 4000 }));
    assert!(matches!(actions[2], Action::Scan { radio: 1, window_ms: 4000 }));
    assert!(matches!(
        actions[3],
        Action::Gatt { radio: 1, peripheral: 1, step: GattAction::QueryConnection }
    ));
    assert_eq!(scans(&actions), 2);
    assert!(matches!(actions.last(), Some(Action::Finish(Ok(21)))));
}

#[test]
fn radio_failures_everywhere_is_bt_unavailable() {
    let (st, actions) = drive(vec![Event::RadiosListed(Some(2)), Event::Scanned(None), Event::Scanned(None)]);
    assert!(matches!(st, PipelineState::Finished(Err(ErrorType::BtUnavailable))));
    assert_eq!(scans(&actions), 2);
}

#[test]
fn nothing_found_is_beacon_unavailable() {
    let (st, _) = drive(vec![Event::RadiosListed(Some(2)), Event::Scanned(None), Event::Scanned(Some(vec![]))]);
    assert!(matches!(st, PipelineState::Finished(Err(ErrorType::BeaconUnavailable))));
}

#[test]
fn communication_failure_moves_to_next_radio() {
    let mut events = vec![
        Event::RadiosListed(Some(2)),
        Event::Scanned(Some(vec![adv(BEACON)])),
        Event::Gatt(GattEvent::ConnectionState(Some(false))),
        Event::Gatt(GattEvent::Connected(false)),
        Event::Scanned(Some(vec![adv(BEACON)])),
    ];
    events.extend(successful_session(vec![0xfe, 0xff]));
    let (st, actions) = drive(events);
    assert!(matches!(st, PipelineState::Finished(Ok(-2))));
    assert!(matches!(actions[4], Action::Scan { radio: 1, .. }));
}

#[test]
fn communication_failure_on_last_radio_is_beacon_unavailable() {
    let (st, _) = drive(vec![
        Event::RadiosListed(Some(1)),
        Event::Scanned(Some(vec![adv(BEACON)])),
        Event::Gatt(GattEvent::ConnectionState(None)),
    ]);
    assert!(matches!(st, PipelineState::Finished(Err(ErrorType::BeaconUnavailable))));
}

#[test]
fn disconnect_failure_keeps_success() {
    let (st, _) = drive(vec![
        Event::RadiosListed(Some(1)),
        Event::Scanned(Some(vec![adv(BEACON)])),
        Event::Gatt(GattEvent::ConnectionState(Some(true))),
        Event::Gatt(GattEvent::ServicesDiscovered(Some(services()))),
        Event::Gatt(GattEvent::ValueRead(Some(vec![0x05]))),
        Event::Gatt(GattEvent::Disconnected(false)),
    ]);
    assert!(matches!(st, PipelineState::Finished(Ok(5))));
}

#[test]
fn finished_run_ignores_later_events() {
    let (st, actions) = drive(vec![
        Event::RadiosListed(Some(0)),
        Event::RadiosListed(Some(2)),
        Event::Scanned(Some(vec![adv(BEACON)])),
    ]);
    assert!(matches!(st, PipelineState::Finished(Err(ErrorType::BtUnavailable))));
    assert_eq!(scans(&actions), 0);
}
