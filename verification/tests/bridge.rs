use awuba_iot::aruba::{
    access_token_matches, device_key, handle_ble_frame, mac6_from_slice, BleFrame, FrameOutcome, FrameSkip,
    PublishedDevices,
};
use awuba_iot::hass::discovery::{device_sensor_announcements, MqttDevice, SensorConfig};
use awuba_iot::hass::thermometer::{thermometer_announcements, thermometer_device, thermometer_sensors};
use awuba_iot::protocols::{ParserRegistry, ProtocolType, RegistryParseError};

const PVVX_PACKET: [u8; 15] = [
    0x93, 0x41, 0x8c, 0x38, 0xc1, 0xa4, 0xac, 0x08, 0x9e, 0x14, 0xa0, 0x0b, 100, 136, 0x04,
];

fn service_frame(service: u16, data: &[u8]) -> Vec<u8> {
    let mut f = vec![(data.len() + 3) as u8, 0x16];
    f.extend_from_slice(&service.to_le_bytes());
    f.extend_from_slice(data);
    f
}

fn ble(is_adv_ind: bool, mac: Vec<u8>, data: Vec<u8>) -> BleFrame {
    BleFrame { is_adv_ind, mac, data, rssi: -67 }
}

#[test]
fn reading_is_reported_and_device_announced_once() {
    let mut registry = ParserRegistry::default_handlers();
    let mut published = PublishedDevices::new();
    let reporter = [0x00, 0x1a, 0x1e, 0x01, 0x02, 0x03];
    let frame = ble(true, vec![0xa4, 0xc1, 0x38, 0x8c, 0x41, 0x93], service_frame(0x181a, &PVVX_PACKET));
    let report = match handle_ble_frame(&mut registry, &mut published, "awuba_iot/", reporter, &frame) {
        FrameOutcome::Report(r) => r,
        other => panic!("unexpected {other:?}"),
    };
    assert!(report.is_new_device);
    assert_eq!(report.identifier, "awuba_ble_a4c1388c4193");
    assert_eq!(report.state_topic, "awuba_iot/awuba_ble_a4c1388c4193/state");
    assert_eq!(report.payload.mac, "a4:c1:38:8c:41:93");
    assert_eq!(report.payload.reporter_mac, "00:1a:1e:01:02:03");
    assert_eq!(report.payload.temperature_hundredths, 2220);
    assert_eq!(report.payload.humidity_hundredths, 5278);
    assert_eq!(report.payload.battery_pct, 100);
    assert_eq!(report.payload.battery_mv, 2976);
    assert_eq!(report.payload.rssi, -67);
    assert_eq!(report.reading.protocol, ProtocolType::AtcPvvx);

    // the same packet again is a duplicate
    assert!(matches!(
        handle_ble_frame(&mut registry, &mut published, "awuba_iot/", reporter, &frame),
        FrameOutcome::Skipped(FrameSkip::DuplicatePacket)
    ));

    // the next packet is reported without a new announcement
    let mut next = PVVX_PACKET;
    next[13] = 137;
    let frame2 = ble(true, vec![0xa4, 0xc1, 0x38, 0x8c, 0x41, 0x93], service_frame(0x181a, &next));
    match handle_ble_frame(&mut registry, &mut published, "awuba_iot/", reporter, &frame2) {
        FrameOutcome::Report(r) => assert!(!r.is_new_device),
        other => panic!("unexpected {other:?}"),
    }
}

#[test]
fn frames_that_are_skipped() {
    let mut registry = ParserRegistry::default_handlers();
    let mut published = PublishedDevices::new();
    let reporter = [0; 6];
    let good = service_frame(0x181a, &PVVX_PACKET);
    assert!(matches!(
        handle_ble_frame(&mut registry, &mut published, "p/", reporter, &ble(false, vec![1; 6], good.clone())),
        FrameOutcome::Skipped(FrameSkip::NotAdvertisement)
    ));
    assert!(matches!(
        handle_ble_frame(&mut registry, &mut published, "p/", reporter, &ble(true, vec![1; 5], good.clone())),
        FrameOutcome::Skipped(FrameSkip::InvalidMac)
    ));
    assert!(matches!(
        handle_ble_frame(&mut registry, &mut published, "p/", reporter, &ble(true, vec![1; 6], service_frame(0x1234, &PVVX_PACKET))),
        FrameOutcome::Skipped(FrameSkip::UnknownService)
    ));
    assert!(matches!(
        handle_ble_frame(&mut registry, &mut published, "p/", reporter, &ble(true, vec![1; 6], service_frame(0x181a, &[1]))),
        FrameOutcome::Skipped(FrameSkip::AtcInvalid)
    ));
    assert!(matches!(
        handle_ble_frame(&mut registry, &mut published, "p/", reporter, &ble(true, vec![1; 6], vec![0x02, 0x01, 0x06])),
        FrameOutcome::Skipped(FrameSkip::Unexpected(RegistryParseError::InvalidFrame))
    ));
    // none of these were remembered: the good frame is still new
    match handle_ble_frame(&mut registry, &mut published, "p/", reporter, &ble(true, vec![1; 6], good)) {
        FrameOutcome::Report(r) => assert!(r.is_new_device),
        other => panic!("unexpected {other:?}"),
    }
}

#[test]
fn published_devices_remember_and_forget() {
    let mut p = PublishedDevices::new();
    let mac = [1, 2, 3, 4, 5, 6];
    assert!(p.note_device(ProtocolType::Atc1441, &mac));
    assert!(!p.note_device(ProtocolType::Atc1441, &mac));
    // the same MAC under the other protocol is another device
    assert!(p.note_device(ProtocolType::AtcPvvx, &mac));
    p.forget_device(ProtocolType::Atc1441, &mac);
    assert!(p.note_device(ProtocolType::Atc1441, &mac));
    p.clear();
    assert!(p.note_device(ProtocolType::AtcPvvx, &mac));
}

#[test]
fn published_devices_forget_the_oldest_beyond_capacity() {
    let mut p = PublishedDevices::new();
    for i in 0..513u16 {
        let mac = [0, 0, 0, 0, (i >> 8) as u8, (i & 0xff) as u8];
        assert!(p.note_device(ProtocolType::Atc1441, &mac));
    }
    assert!(p.note_device(ProtocolType::Atc1441, &[0; 6]));
    assert!(!p.note_device(ProtocolType::Atc1441, &[0, 0, 0, 0, 2, 0]));
}

#[test]
fn device_keys_keep_protocols_apart() {
    let mac = [0xff; 6];
    assert_eq!(device_key(ProtocolType::Atc1441, &mac), 0xffff_ffff_ffff);
    assert_eq!(device_key(ProtocolType::AtcPvvx, &mac), 0x1_ffff_ffff_ffff);
}

#[test]
fn mac_from_reported_bytes() {
    assert_eq!(mac6_from_slice(&[1, 2, 3, 4, 5, 6]), Some([1, 2, 3, 4, 5, 6]));
    assert_eq!(mac6_from_slice(&[1, 2, 3, 4, 5]), None);
    assert_eq!(mac6_from_slice(&[1, 2, 3, 4, 5, 6, 7]), None);
    assert_eq!(mac6_from_slice(&[]), None);
}

#[test]
fn access_token_comparison() {
    assert!(access_token_matches(&"t0ken-42".to_string(), &"t0ken-42".to_string()));
    assert!(!access_token_matches(&"abc".to_string(), &"abd".to_string()));
    assert!(!access_token_matches(&String::new(), &"a".to_string()));
}

#[test]
fn thermometer_device_description() {
    let mac = [0xa4, 0xc1, 0x38, 0x8c, 0x41, 0x93];
    let d = thermometer_device(&mac, "awuba_ble_a4c1388c4193", ProtocolType::AtcPvvx);
    assert_eq!(d.connections, Some(vec![("mac".to_string(), "a4:c1:38:8c:41:93".to_string())]));
    assert_eq!(d.identifiers, Some(vec!["awuba_ble_a4c1388c4193".to_string()]));
    assert_eq!(d.manufacturer, None);
    assert_eq!(d.model.as_deref(), Some("atc_pvvx"));
    assert_eq!(d.name.as_deref(), Some("BLE atc_pvvx a4:c1:38:8c:41:93"));
    assert_eq!(d.sw_version, None);
    let copy = d.duplicate();
    assert_eq!(copy.name, d.name);
    assert_eq!(copy.connections, d.connections);
}

#[test]
fn thermometer_sensor_list() {
    let s = thermometer_sensors();
    let suffixes: Vec<&str> = s.iter().map(|c| c.suffix).collect();
    assert_eq!(suffixes, vec!["temperature", "humidity", "battery_pct", "battery_mv", "rssi"]);
    assert_eq!(s[0].unit, Some("°C"));
    assert_eq!(s[0].entity_category, None);
    assert_eq!(s[4].device_class, Some("signal_strength"));
    assert_eq!(s[4].entity_category, Some("diagnostic"));
    assert_eq!(s[3].value_template, "{{ value_json.battery_mv }}");
    assert!(s.iter().all(|c| c.state_class == Some("measurement")));
}

#[test]
fn thermometer_announcement_messages() {
    let mac = [0xa4, 0xc1, 0x38, 0x8c, 0x41, 0x93];
    let msgs = thermometer_announcements(
        "awuba_iot/awuba_ble_a4c1388c4193/state",
        "homeassistant/",
        &mac,
        "awuba_ble_a4c1388c4193",
        ProtocolType::Atc1441,
    );
    assert_eq!(msgs.len(), 5);
    let (topic, d) = &msgs[1];
    assert_eq!(topic, "homeassistant/sensor/awuba_ble_a4c1388c4193/humidity/config");
    assert_eq!(d.unique_id, "awuba_ble_a4c1388c4193_humidity");
    assert_eq!(d.state_topic, "awuba_iot/awuba_ble_a4c1388c4193/state");
    assert_eq!(d.name.as_deref(), Some("Humidity"));
    assert_eq!(d.unit_of_measurement.as_deref(), Some("%"));
    assert_eq!(d.value_template.as_deref(), Some("{{ value_json.humidity }}"));
    assert_eq!(d.device.as_ref().unwrap().name.as_deref(), Some("BLE atc1441 a4:c1:38:8c:41:93"));
    assert_eq!(msgs[4].0, "homeassistant/sensor/awuba_ble_a4c1388c4193/rssi/config");
    assert_eq!(msgs[4].1.entity_category.as_deref(), Some("diagnostic"));
}

#[test]
fn announcements_follow_sensor_order() {
    let device = MqttDevice {
        connections: None,
        identifiers: Some(vec!["id".to_string()]),
        manufacturer: Some("m".to_string()),
        model: None,
        name: None,
        sw_version: Some("1".to_string()),
    };
    let sensors = vec![SensorConfig {
        suffix: "x",
        name: "X",
        device_class: None,
        unit: None,
        value_template: "{{ value_json.x }}",
        state_class: None,
        entity_category: None,
    }];
    let msgs = device_sensor_announcements("", "s", "id", &device, &sensors);
    assert_eq!(msgs.len(), 1);
    assert_eq!(msgs[0].0, "sensor/id/x/config");
    assert_eq!(msgs[0].1.unique_id, "id_x");
    assert_eq!(msgs[0].1.device_class, None);
    let d = msgs[0].1.device.as_ref().unwrap();
    assert_eq!(d.manufacturer.as_deref(), Some("m"));
    assert_eq!(d.sw_version.as_deref(), Some("1"));
    assert!(device_sensor_announcements("p/", "s", "id", &device, &Vec::new()).is_empty());
}
