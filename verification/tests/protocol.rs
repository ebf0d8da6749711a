use nl80211scan::codec::AttributeTable;
use nl80211scan::find_by_name;
use nl80211scan::parse_station;
use nl80211scan::Interface;
use nl80211scan::InterfaceDump;
use nl80211scan::InterfaceType;
use nl80211scan::ScanError;
use nl80211scan::ScanPhase;
use nl80211scan::ScanSession;

fn mk_attr(id: u16, payload: &[u8]) -> Vec<u8> {
    let alen = (payload.len() + 4) as u16;
    let mut out = vec![
        (alen % 256) as u8,
        (alen / 256) as u8,
        (id % 256) as u8,
        (id / 256) as u8,
    ];
    out.extend_from_slice(payload);
    while out.len() % 4 != 0 {
        out.push(0);
    }
    out
}

fn mk_genl_msg(nl_type: u16, cmd: u8, attrs: &[u8]) -> Vec<u8> {
    let total = (20 + attrs.len()) as u32;
    let mut out = Vec::new();
    out.extend_from_slice(&total.to_le_bytes());
    out.extend_from_slice(&nl_type.to_le_bytes());
    out.extend_from_slice(&[0, 0]); // flags
    out.extend_from_slice(&[0, 0, 0, 0]); // sequence
    out.extend_from_slice(&[0, 0, 0, 0]); // port id
    out.push(cmd);
    out.push(1); // version
    out.extend_from_slice(&[0, 0]); // reserved
    out.extend_from_slice(attrs);
    out
}

fn mk_done_msg() -> Vec<u8> {
    vec![16, 0, 0, 0, 3, 0, 0, 0, 0, 0, 0, 0, 0, 0, 0, 0]
}

fn mk_ack_msg(code: i32) -> Vec<u8> {
    let mut out = vec![20, 0, 0, 0, 2, 0, 0, 0, 0, 0, 0, 0, 0, 0, 0, 0];
    out.extend_from_slice(&code.to_le_bytes());
    out
}

fn mk_iface_msg(family: u16, name: &str, index: u32, mac: [u8; 6]) -> Vec<u8> {
    let mut name_payload = name.as_bytes().to_vec();
    name_payload.push(0);
    let mut attrs = Vec::new();
    attrs.extend_from_slice(&mk_attr(4, &name_payload)); // name
    attrs.extend_from_slice(&mk_attr(3, &index.to_le_bytes())); // index
    attrs.extend_from_slice(&mk_attr(5, &2u32.to_le_bytes())); // type: station
    attrs.extend_from_slice(&mk_attr(1, &0u32.to_le_bytes())); // wiphy
    attrs.extend_from_slice(&mk_attr(153, &7u64.to_le_bytes())); // wdev
    attrs.extend_from_slice(&mk_attr(6, &mac)); // mac
    mk_genl_msg(family, 7, &attrs)
}

fn mk_bss_msg(family: u16, ssid: Option<&[u8]>, signal_mbm: i32) -> Vec<u8> {
    let mut bss = Vec::new();
    bss.extend_from_slice(&mk_attr(7, &signal_mbm.to_le_bytes()));
    let mut ies = Vec::new();
    // An unrelated element first, then the SSID element if asked for.
    ies.extend_from_slice(&[1, 2, 0x82, 0x84]);
    if let Some(name) = ssid {
        ies.push(0);
        ies.push(name.len() as u8);
        ies.extend_from_slice(name);
    }
    bss.extend_from_slice(&mk_attr(6, &ies));
    let attrs = mk_attr(0x8000 | 47, &bss);
    mk_genl_msg(family, 34, &attrs)
}

#[test]
fn interface_decodes_from_attribute_table() {
    let msg = mk_iface_msg(0x1c, "wlan0", 3, [1, 2, 3, 4, 5, 6]);
    let t = AttributeTable::decode(&msg, 20);
    let iface = Interface::try_from_attrs(&t).unwrap();
    assert_eq!(iface.name, "wlan0");
    assert_eq!(iface.index, 3);
    assert_eq!(iface.iftype, InterfaceType::Station);
    assert_eq!(iface.wiphy, 0);
    assert_eq!(iface.wdev, 7);
    assert_eq!(iface.mac_address, [1, 2, 3, 4, 5, 6]);
}

#[test]
fn interface_missing_field_is_an_error() {
    let attrs = mk_attr(4, b"wlan0\0");
    let msg = mk_genl_msg(0x1c, 7, &attrs);
    let t = AttributeTable::decode(&msg, 20);
    assert!(matches!(
        Interface::try_from_attrs(&t),
        Err(ScanError::Decode(3))
    ));
}

#[test]
fn interface_type_from_raw_codes() {
    assert_eq!(InterfaceType::from(0u32), InterfaceType::Unspecified);
    assert_eq!(InterfaceType::from(2u32), InterfaceType::Station);
    assert_eq!(InterfaceType::from(3u32), InterfaceType::AP);
    assert_eq!(InterfaceType::from(12u32), InterfaceType::Nan);
    assert_eq!(InterfaceType::from(99u32), InterfaceType::Unspecified);
}

#[test]
fn same_entity_goes_by_mac() {
    let a = mk_iface_msg(0x1c, "wlan0", 3, [1, 2, 3, 4, 5, 6]);
    let b = mk_iface_msg(0x1c, "wlan1", 9, [1, 2, 3, 4, 5, 6]);
    let c = mk_iface_msg(0x1c, "wlan0", 3, [9, 9, 9, 9, 9, 9]);
    let ia = Interface::try_from_attrs(&AttributeTable::decode(&a, 20)).unwrap();
    let ib = Interface::try_from_attrs(&AttributeTable::decode(&b, 20)).unwrap();
    let ic = Interface::try_from_attrs(&AttributeTable::decode(&c, 20)).unwrap();
    assert!(ia.same_entity(&ib));
    assert!(!ia.same_entity(&ic));
}

#[test]
fn dump_aggregation_excludes_terminator() {
    // Three messages, the third being the DONE terminator: exactly the
    // two data messages come out.
    let mut dump = InterfaceDump::new();
    let batch = vec![
        mk_iface_msg(0x1c, "wlan0", 3, [1, 2, 3, 4, 5, 6]),
        mk_iface_msg(0x1c, "wlan1", 4, [6, 5, 4, 3, 2, 1]),
        mk_done_msg(),
    ];
    dump.feed(&batch);
    assert!(dump.done);
    assert_eq!(dump.interfaces.len(), 2);
    assert_eq!(dump.interfaces[0].name, "wlan0");
    assert_eq!(dump.interfaces[1].name, "wlan1");
}

#[test]
fn dump_aggregation_spans_batches() {
    let mut dump = InterfaceDump::new();
    dump.feed(&vec![mk_iface_msg(0x1c, "wlan0", 3, [1, 2, 3, 4, 5, 6])]);
    assert!(!dump.done);
    dump.feed(&vec![
        mk_iface_msg(0x1c, "wlan1", 4, [6, 5, 4, 3, 2, 1]),
        mk_done_msg(),
    ]);
    assert!(dump.done);
    assert_eq!(dump.interfaces.len(), 2);
}

#[test]
fn dump_aggregation_skips_undecodable_messages() {
    let mut dump = InterfaceDump::new();
    let batch = vec![
        mk_genl_msg(0x1c, 7, &mk_attr(4, b"ghost0\0")),
        mk_iface_msg(0x1c, "wlan0", 3, [1, 2, 3, 4, 5, 6]),
        mk_done_msg(),
    ];
    dump.feed(&batch);
    assert!(dump.done);
    assert_eq!(dump.interfaces.len(), 1);
    assert_eq!(dump.interfaces[0].name, "wlan0");
}

#[test]
fn find_by_name_absent_is_interface_not_found() {
    let msg = mk_iface_msg(0x1c, "wlan0", 3, [1, 2, 3, 4, 5, 6]);
    let iface = Interface::try_from_attrs(&AttributeTable::decode(&msg, 20)).unwrap();
    let ifaces = vec![iface];
    assert_eq!(find_by_name(&ifaces, "eth0"), Err(ScanError::InterfaceNotFound));
    assert_eq!(find_by_name(&ifaces, "wlan0"), Ok(0));
}

#[test]
fn station_parses_ssid_and_quality() {
    let msg = mk_bss_msg(0x1c, Some(b"Home"), -5000);
    let st = parse_station(&msg).unwrap();
    assert_eq!(st.ssid, "Home");
    assert_eq!(st.quality, 83);
}

#[test]
fn station_without_ssid_element_is_filtered() {
    let msg = mk_bss_msg(0x1c, None, -5000);
    assert!(parse_station(&msg).is_none());
}

#[test]
fn station_with_invalid_utf8_ssid_is_filtered() {
    let msg = mk_bss_msg(0x1c, Some(&[0xff, 0xfe]), -5000);
    assert!(parse_station(&msg).is_none());
}

#[test]
fn station_with_empty_ssid_is_filtered() {
    let msg = mk_bss_msg(0x1c, Some(b""), -5000);
    assert!(parse_station(&msg).is_none());
}

#[test]
fn station_without_signal_is_filtered() {
    let ies = [0u8, 4, b'H', b'o', b'm', b'e'];
    let bss = mk_attr(6, &ies);
    let msg = mk_genl_msg(0x1c, 34, &mk_attr(47, &bss));
    assert!(parse_station(&msg).is_none());
}

#[test]
fn station_without_bss_group_is_filtered() {
    let msg = mk_genl_msg(0x1c, 34, &[]);
    assert!(parse_station(&msg).is_none());
}

#[test]
fn scan_end_to_end_collects_stations() {
    // One interface named wlan0; the trigger is acknowledged; the
    // multicast wait brings new results; the dump holds one BSS with an
    // SSID and one without: exactly one station comes out.
    let family = 0x1c;
    let mut dump = InterfaceDump::new();
    dump.feed(&vec![
        mk_iface_msg(family, "wlan0", 3, [1, 2, 3, 4, 5, 6]),
        mk_done_msg(),
    ]);
    let i = find_by_name(&dump.interfaces, "wlan0").unwrap();
    let ifindex = dump.interfaces[i].index;
    assert_eq!(ifindex, 3);

    let mut session = ScanSession::new(family, ifindex);
    assert_eq!(session.phase, ScanPhase::Idle);

    let trigger = session.trigger_request();
    assert_eq!(session.phase, ScanPhase::Triggering);
    // TRIGGER_SCAN with the interface index and the AP scan flag.
    assert_eq!(trigger[16], 33);
    assert_eq!(&trigger[20..28], &[8, 0, 3, 0, 3, 0, 0, 0]);
    assert_eq!(&trigger[28..36], &[8, 0, 158, 0, 4, 0, 0, 0]);

    session.on_trigger_ack(&vec![mk_ack_msg(0)]).unwrap();
    assert_eq!(session.phase, ScanPhase::AwaitingNotification);

    // Unrelated multicast traffic is ignored; the new-results tag moves
    // the session on.
    session.on_notification(&vec![mk_genl_msg(family, 19, &[])]);
    assert_eq!(session.phase, ScanPhase::AwaitingNotification);
    session.on_notification(&vec![mk_genl_msg(family, 34, &[])]);
    assert_eq!(session.phase, ScanPhase::FetchingResults);

    let fetch = session.results_request();
    assert_eq!(fetch[16], 32);

    session.on_results(&vec![
        mk_bss_msg(family, Some(b"Home"), -5000),
        mk_bss_msg(family, None, -3000),
        mk_done_msg(),
    ]);
    assert_eq!(session.phase, ScanPhase::Done);
    assert_eq!(session.stations.len(), 1);
    assert_eq!(session.stations[0].ssid, "Home");
    assert_eq!(session.stations[0].quality, 83);
}

#[test]
fn scan_already_scanning_is_empty_success() {
    let mut session = ScanSession::new(0x1c, 3);
    let _ = session.trigger_request();
    session.on_trigger_ack(&vec![mk_ack_msg(0)]).unwrap();
    session.on_notification(&vec![mk_genl_msg(0x1c, 35, &[])]);
    assert_eq!(session.phase, ScanPhase::AlreadyScanning);
    assert!(session.stations.is_empty());
}

#[test]
fn scan_rejected_trigger_fails() {
    let mut session = ScanSession::new(0x1c, 3);
    let _ = session.trigger_request();
    // -16 is the kernel's "busy" code.
    let r = session.on_trigger_ack(&vec![mk_ack_msg(-16)]);
    assert_eq!(r, Err(ScanError::Nack(-16)));
    assert_eq!(session.phase, ScanPhase::Failed);
}

#[test]
fn scan_ack_batch_without_acknowledgement_is_a_recv_failure() {
    let mut session = ScanSession::new(0x1c, 3);
    let _ = session.trigger_request();
    let r = session.on_trigger_ack(&vec![mk_genl_msg(0x1c, 33, &[])]);
    assert_eq!(r, Err(ScanError::Recv));
    assert_eq!(session.phase, ScanPhase::Failed);
}

#[test]
fn dump_messages_after_terminator_are_ignored() {
    let mut dump = InterfaceDump::new();
    dump.feed(&vec![
        mk_iface_msg(0x1c, "wlan0", 3, [1, 2, 3, 4, 5, 6]),
        mk_done_msg(),
        mk_iface_msg(0x1c, "wlan1", 4, [6, 5, 4, 3, 2, 1]),
    ]);
    assert!(dump.done);
    assert_eq!(dump.interfaces.len(), 1);
}

#[test]
fn scan_results_span_batches() {
    let mut session = ScanSession::new(0x1c, 3);
    let _ = session.trigger_request();
    session.on_trigger_ack(&vec![mk_ack_msg(0)]).unwrap();
    session.on_notification(&vec![mk_genl_msg(0x1c, 34, &[])]);
    session.on_results(&vec![mk_bss_msg(0x1c, Some(b"one"), -10000)]);
    assert_eq!(session.phase, ScanPhase::FetchingResults);
    session.on_results(&vec![mk_bss_msg(0x1c, Some(b"two"), -4000), mk_done_msg()]);
    assert_eq!(session.phase, ScanPhase::Done);
    assert_eq!(session.stations.len(), 2);
    assert_eq!(session.stations[0].ssid, "one");
    assert_eq!(session.stations[0].quality, 0);
    assert_eq!(session.stations[1].ssid, "two");
    assert_eq!(session.stations[1].quality, 100);
}
