use penguinwave::hid::arctis_nova_7::{
    battery_from_raw, battery_of_report, chatmix_from_raw, chatmix_of_report, microphone_report,
    sidetone_report, ArctisNova7,
    DATA_REQUEST,
};
use penguinwave::hid::error::{classify_open, poisoned, HidError};
use penguinwave::hid::headset::{Headset, HidTransport};
use penguinwave::hid::mock::MockTransport;
use penguinwave::hid::registry::{sorted_unique_ids, DeviceChange, DeviceRegistry};
use penguinwave::hid::userdev::{validate, validate_all};
use penguinwave::proto::{DeviceId, DevicePresence, ErrorKind, UserDevice};

fn nova7() -> DeviceId {
    ArctisNova7::new().id()
}

/// Status report: byte 2 battery level, bytes 4 and 5 the ChatMix wheel.
fn report(battery: u8, game: u8, chat: u8) -> Vec<u8> {
    let mut r = vec![0u8; 64];
    r[2] = battery;
    r[4] = game;
    r[5] = chat;
    r
}

fn registry() -> DeviceRegistry<ArctisNova7> {
    DeviceRegistry::new()
}

fn dev(name: &str, vendor: Option<&str>, product: Option<&str>) -> UserDevice {
    UserDevice {
        name: name.to_string(),
        vendor_id: vendor.map(|s| s.to_string()),
        product_id: product.map(|s| s.to_string()),
        pipewire_sink: None,
    }
}

#[test]
fn chatmix_endpoints_and_centre() {
    assert_eq!(chatmix_from_raw(100, 0), 100);
    assert_eq!(chatmix_from_raw(0, 100), 0);
    assert_eq!(chatmix_from_raw(0, 0), 50);
    assert_eq!(chatmix_from_raw(100, 100), 50);
}

#[test]
fn chatmix_never_panics_on_out_of_range_bytes() {
    for g in 0..=255u8 {
        for c in [0u8, 100, 200, 255] {
            let v = chatmix_from_raw(g, c);
            assert!(v <= 100);
        }
    }
}

#[test]
fn battery_rejects_unknown_level() {
    assert_eq!(battery_from_raw(3), Ok(75));
    assert!(matches!(battery_from_raw(0), Err(HidError::Protocol(_))));
    assert!(matches!(battery_from_raw(9), Err(HidError::Protocol(_))));
}

#[test]
fn battery_levels_map_to_quarters() {
    assert_eq!(battery_from_raw(1), Ok(25));
    assert_eq!(battery_from_raw(2), Ok(50));
    assert_eq!(battery_from_raw(4), Ok(100));
}

#[test]
fn attach_and_detach_are_reported_once() {
    let mut reg = registry();

    assert_eq!(reg.refresh(Ok(vec![])).unwrap(), vec![]);

    assert_eq!(
        reg.refresh(Ok(vec![nova7()])).unwrap(),
        vec![DeviceChange::Attached(nova7())]
    );
    assert_eq!(reg.refresh(Ok(vec![nova7()])).unwrap(), vec![]);

    assert_eq!(
        reg.refresh(Ok(vec![])).unwrap(),
        vec![DeviceChange::Detached(nova7())]
    );
    assert_eq!(reg.refresh(Ok(vec![])).unwrap(), vec![]);
}

#[test]
fn unsupported_devices_are_ignored() {
    let mut reg = registry();
    assert_eq!(
        reg.refresh(Ok(vec![DeviceId::new(0x046d, 0xc52b)])).unwrap(),
        vec![]
    );
    assert_eq!(reg.selected(), None);
}

#[test]
fn first_attach_selects_and_detach_does_not_clear() {
    let mut reg = registry();

    reg.refresh(Ok(vec![nova7()])).unwrap();
    assert_eq!(reg.selected(), Some(nova7()));

    reg.refresh(Ok(vec![])).unwrap();
    assert_eq!(reg.selected(), Some(nova7()));
    assert!(!reg.is_present(nova7()));
}

#[test]
fn selecting_an_unknown_device_fails() {
    let mut reg = registry();
    let err = reg.select(DeviceId::new(0x0000, 0x0001)).unwrap_err();
    assert!(matches!(err, HidError::Unknown(..)));
}

#[test]
fn descriptors_report_presence_without_dropping_known_models() {
    let mut reg = registry();
    reg.refresh(Ok(vec![])).unwrap();

    let d = reg.descriptors();
    assert_eq!(d.len(), 1);
    assert_eq!(d[0].presence, DevicePresence::Absent);
    assert!(!d[0].capabilities.is_empty());

    reg.refresh(Ok(vec![nova7()])).unwrap();
    assert_eq!(reg.descriptors()[0].presence, DevicePresence::Connected);
}

#[test]
fn absent_device_is_not_opened() {
    let reg = registry();
    let mut t = MockTransport::new(vec![]);
    let err = reg.read_chatmix(nova7(), &mut t).unwrap_err();
    assert!(matches!(err, HidError::Absent(..)));
    assert!(err.is_absent());
    assert!(t.state.writes.is_empty());
}

#[test]
fn chatmix_read_writes_the_request_prefix() {
    let mut t = MockTransport::new(vec![report(4, 100, 0)]);
    let mut reg = registry();
    reg.refresh(Ok(vec![nova7()])).unwrap();

    assert_eq!(reg.read_chatmix(nova7(), &mut t).unwrap(), 100);
    assert_eq!(t.state.writes, vec![DATA_REQUEST.to_vec()]);
}

#[test]
fn sidetone_and_mic_volume_quantise() {
    let mut t = MockTransport::new(vec![]);
    let mut reg = registry();
    reg.refresh(Ok(vec![nova7()])).unwrap();

    reg.set_sidetone(nova7(), &mut t, 0).unwrap();
    reg.set_sidetone(nova7(), &mut t, 100).unwrap();
    reg.set_microphone_volume(nova7(), &mut t, 255).unwrap();
    reg.set_microphone_volume(nova7(), &mut t, 0).unwrap();

    assert_eq!(
        t.state.writes,
        vec![
            vec![0x00, 0x39, 0x00],
            vec![0x00, 0x39, 0x03],
            vec![0x00, 0x37, 0x07],
            vec![0x00, 0x37, 0x00],
        ]
    );
}

#[test]
fn sidetone_and_microphone_reports_are_three_bytes() {
    assert_eq!(sidetone_report(50), vec![0x00, 0x39, 0x01]);
    assert_eq!(microphone_report(40), vec![0x00, 0x37, 0x02]);
}

#[test]
fn battery_separates_absent_from_faulted() {
    let mut reg = registry();
    let mut none = MockTransport::new(vec![]);

    assert_eq!(reg.battery(nova7(), &mut none).presence, DevicePresence::Absent);

    let mut t = MockTransport::new(vec![report(2, 50, 50)]);
    reg.refresh(Ok(vec![nova7()])).unwrap();
    let info = reg.battery(nova7(), &mut t);
    assert_eq!(info.presence, DevicePresence::Connected);
    assert_eq!(info.level, Some(50));

    // Replies exhausted: the device is present but the read fails.
    assert_eq!(reg.battery(nova7(), &mut t).presence, DevicePresence::Faulted);
}

#[test]
fn unknown_battery_level_faults_instead_of_panicking() {
    let mut t = MockTransport::new(vec![report(9, 0, 0)]);
    let mut reg = registry();
    reg.refresh(Ok(vec![nova7()])).unwrap();

    let info = reg.battery(nova7(), &mut t);
    assert_eq!(info.presence, DevicePresence::Faulted);
    assert_eq!(info.level, None);
}

#[test]
fn permission_denied_survives_as_its_own_kind() {
    let mut reg = registry();
    reg.refresh(Ok(vec![nova7()])).unwrap();
    assert!(reg.check_open(nova7()).is_ok());

    let err = classify_open("hidapi error: Permission denied", nova7());
    assert!(matches!(err, HidError::PermissionDenied(..)));
    assert!(!err.is_absent());
}

#[test]
fn open_failures_are_classified_by_their_message() {
    let id = nova7();
    assert_eq!(
        classify_open("Failed to open: ACCESS denied", id),
        HidError::PermissionDenied(0x1038, 0x2202)
    );
    assert_eq!(
        classify_open("No such device", id),
        HidError::Absent(0x1038, 0x2202)
    );
    assert_eq!(classify_open("", id), HidError::Absent(0x1038, 0x2202));
}

#[test]
fn hidapi_failure_surfaces_from_refresh() {
    let mut reg = registry();
    assert!(matches!(
        reg.refresh(Err(HidError::ApiUnavailable("no hidraw".to_string())))
            .unwrap_err(),
        HidError::ApiUnavailable(_)
    ));
}

#[test]
fn enumeration_is_sorted_and_deduplicated() {
    let a = DeviceId::new(0x1038, 0x2202);
    let b = DeviceId::new(0x046d, 0xc52b);
    let c = DeviceId::new(0x1038, 0x12ad);
    assert_eq!(sorted_unique_ids(&vec![a, b, a, c, b]), vec![b, c, a]);
    assert_eq!(sorted_unique_ids(&vec![]), vec![]);
}

#[test]
fn a_poisoned_lock_is_an_internal_io_error() {
    let e = poisoned();
    assert_eq!(e, HidError::Io("hidapi lock poisoned".to_string()));
    assert_eq!(e.kind(), ErrorKind::Internal);
}

#[test]
fn non_hex_ids_are_rejected() {
    for bad in ["10 38", "103", "10388", "1038\"", "zzzz", "0x10"] {
        assert!(
            validate(&dev("x", Some(bad), None)).is_err(),
            "accepted {bad:?}"
        );
        assert!(
            validate(&dev("x", None, Some(bad))).is_err(),
            "accepted {bad:?}"
        );
    }
}

#[test]
fn hex_ids_are_accepted_in_either_case() {
    assert!(validate(&dev("x", Some("1AbF"), Some("0000"))).is_ok());
}

#[test]
fn absent_ids_are_allowed_but_empty_names_are_not() {
    assert!(validate(&dev("Sink only", None, None)).is_ok());
    assert!(validate(&dev("  ", None, None)).is_err());
}

#[test]
fn selecting_and_clearing_a_device_round_trips() {
    let mut reg = registry();
    reg.refresh(Ok(vec![nova7()])).unwrap();
    reg.select(nova7()).unwrap();
    assert_eq!(reg.selected(), Some(nova7()));
    reg.clear_selection();
    assert_eq!(reg.selected(), None);
}

#[test]
fn an_invalid_user_device_id_is_refused() {
    let mut bad = dev("Bad", None, None);
    bad.vendor_id = Some("' RUN+=\"/bin/sh\"".to_string());
    assert!(validate(&bad).is_err());
    assert!(validate_all(&vec![dev("Good", Some("1038"), None), bad]).is_err());
    assert!(validate_all(&vec![dev("Good", Some("1038"), None)]).is_ok());
}

#[test]
fn selecting_an_unsupported_device_fails() {
    let mut reg = registry();
    assert!(reg.select(DeviceId::new(0x0001, 0x0002)).is_err());
    assert_eq!(reg.selected(), None);
}

#[test]
fn an_absent_headset_surfaces_as_an_error_not_a_panic() {
    let mut reg = registry();
    reg.refresh(Ok(vec![])).unwrap();
    let mut t = MockTransport::new(vec![report(4, 50, 50)]);
    let err = reg.read_chatmix(nova7(), &mut t).unwrap_err();
    assert!(err.is_absent());
}

#[test]
fn mock_read_copies_prefix_and_keeps_rest() {
    let mut t = MockTransport::new(vec![vec![7, 8, 9], vec![]]);
    t.write(&[1, 2]).unwrap();
    assert_eq!(t.state.writes, vec![vec![1u8, 2]]);
    let mut buf = [0u8, 0, 5, 6];
    assert_eq!(t.read(&mut buf, 10), Ok(3));
    assert_eq!(buf, [7, 8, 9, 6]);
    let mut small = [0u8; 1];
    assert_eq!(t.read(&mut small, 10), Err(HidError::Timeout));
    assert_eq!(t.read(&mut small, 10), Err(HidError::Timeout));
    assert_eq!(small, [0]);
}

#[test]
fn the_status_reply_is_read_at_its_own_bytes() {
    // Byte 4 is the game half, byte 5 the chat half, byte 2 the battery.
    assert_eq!(chatmix_of_report(&report(1, 100, 0)), 100);
    assert_eq!(chatmix_of_report(&report(1, 0, 100)), 0);
    assert_eq!(chatmix_of_report(&report(1, 50, 50)), 50);
    assert_eq!(battery_of_report(&report(3, 0, 0)), Ok(75));
    assert!(matches!(battery_of_report(&report(9, 0, 0)), Err(HidError::Protocol(_))));
    // A reply too short to hold a field reads it as 0.
    assert_eq!(chatmix_of_report(&[0, 0, 2, 0, 100]), 100);
    assert!(battery_of_report(&[0, 0]).is_err());
}

#[test]
fn reads_through_the_mock_report_what_came_back() {
    let mut t = MockTransport::new(vec![report(2, 0, 100), report(4, 0, 0)]);
    let m = ArctisNova7::new();
    assert_eq!(m.read_chatmix(&mut t), Ok(0));
    assert_eq!(m.read_battery(&mut t), Ok(100));
    assert_eq!(t.state.served.len(), 2);
    assert_eq!(t.state.served[1], vec![0u8, 0, 4, 0, 0, 0, 0, 0]);
    assert_eq!(t.state.writes, vec![vec![0x00u8, 0xb0], vec![0x00, 0xb0]]);
    // Nothing queued: the request is still written, the read fails.
    assert_eq!(m.read_battery(&mut t), Err(HidError::Timeout));
    assert_eq!(t.state.writes.len(), 3);
    assert_eq!(t.state.served.len(), 2);
}
