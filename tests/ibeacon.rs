use concierge::ibeacon::{locate, payload_matches_target, uuid_eq, Advertisement, IBeaconRecord, ManufacturerData};

const TARGET: [u8; 16] = [
    0x3a, 0x91, 0xf4, 0x27, 0x8c, 0x56, 0x4e, 0xa3, 0xb2, 0x19, 0x7d, 0xc4, 0x5a, 0x8f, 0x33, 0xe1,
];

fn beacon_payload(uuid: [u8; 16]) -> Vec<u8> {
    IBeaconRecord { uuid, major: 0x0102, minor: 0x0304, tx_power: -59 }.to_payload()
}

fn adv(entries: Vec<Vec<u8>>) -> Advertisement {
    Advertisement {
        manufacturer_data: entries
            .into_iter()
            .map(|data| ManufacturerData { company_id: 0x004c, data })
            .collect(),
        rssi: Some(-70),
    }
}

#[test]
fn short_payloads_have_no_record() {
    let full = beacon_payload(TARGET);
    for n in 0..23 {
        assert!(IBeaconRecord::decode(&full[..n]).is_none(), "length {}", n);
        assert!(!payload_matches_target(&full[..n], &TARGET));
    }
    assert!(IBeaconRecord::decode(&full).is_some());
}

#[test]
fn decode_reads_fixed_offsets() {
    let mut data = vec![0x02, 0x15];
    data.extend_from_slice(&TARGET);
    data.extend_from_slice(&[0x12, 0x34, 0xab, 0xcd, 0xc5]);
    let rec = IBeaconRecord::decode(&data).unwrap();
    assert_eq!(rec.uuid, TARGET);
    assert_eq!(rec.major, 0x1234);
    assert_eq!(rec.minor, 0xabcd);
    assert_eq!(rec.tx_power, -59);
}

#[test]
fn longer_payload_still_decodes() {
    let mut data = beacon_payload(TARGET);
    data.push(0x99);
    let rec = IBeaconRecord::decode(&data).unwrap();
    assert_eq!(rec.uuid, TARGET);
}

#[test]
fn payload_round_trip_keeps_uuid() {
    let rec = IBeaconRecord { uuid: TARGET, major: 7, minor: 65535, tx_power: 127 };
    let payload = rec.to_payload();
    assert_eq!(payload.len(), 23);
    assert_eq!(&payload[..2], &[0x02, 0x15]);
    assert_eq!(&payload[2..18], &TARGET);
    assert_eq!(&payload[18..], &[0x00, 0x07, 0xff, 0xff, 0x7f]);
    assert_eq!(IBeaconRecord::decode(&payload), Some(rec));
    let neg = IBeaconRecord { uuid: TARGET, major: 0, minor: 0, tx_power: -128 };
    assert_eq!(IBeaconRecord::decode(&neg.to_payload()), Some(neg));
}

#[test]
fn matches_is_bytewise() {
    let rec = IBeaconRecord::decode(&beacon_payload(TARGET)).unwrap();
    assert!(rec.matches(&TARGET));
    for i in 0..16 {
        let mut other = TARGET;
        other[i] ^= 0x01;
        assert!(!rec.matches(&other), "byte {}", i);
        assert!(!uuid_eq(&TARGET, &other));
    }
}

#[test]
fn locate_skips_short_and_foreign_entries() {
    let mut other = TARGET;
    other[15] = 0;
    let ads = vec![
        adv(vec![]),
        adv(vec![vec![1, 2, 3], beacon_payload(other)]),
        adv(vec![vec![0; 10], beacon_payload(TARGET)]),
        adv(vec![beacon_payload(TARGET)]),
    ];
    assert_eq!(locate(&ads, &TARGET), Some(2));
    assert_eq!(locate(&ads, &[0; 16]), None);
    assert_eq!(locate(&vec![], &TARGET), None);
}

#[test]
fn first_matching_peripheral_wins() {
    let ads = vec![adv(vec![beacon_payload(TARGET)]), adv(vec![beacon_payload(TARGET)])];
    assert_eq!(locate(&ads, &TARGET), Some(0));
}
