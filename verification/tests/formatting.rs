use awuba_iot::config::{
    default_client_id, default_discovery_topic_prefix, default_listen_addr, default_state_topic_prefix,
    ensure_trailing_slash,
};
use awuba_iot::hass::{hass_identifier, state_topic};
use awuba_iot::protocols::ProtocolType;
use awuba_iot::utils::{mac6_to_colon_string, mac6_to_string, mac_key, uuid16_to_uuid, BLUETOOTH_BASE_UUID};

#[test]
fn uuid16_expands_over_base_uuid() {
    assert_eq!(uuid16_to_uuid(0x181a), 0x0000181a_0000_1000_8000_00805f9b34fb);
    assert_eq!(uuid16_to_uuid(0), BLUETOOTH_BASE_UUID);
    assert_eq!(uuid16_to_uuid(0xffff), 0x0000ffff_0000_1000_8000_00805f9b34fb);
}

#[test]
fn mac_strings_are_lower_case_hex() {
    let mac = [0xa4, 0xc1, 0x38, 0x8c, 0x41, 0x93];
    assert_eq!(mac6_to_colon_string(&mac), "a4:c1:38:8c:41:93");
    assert_eq!(mac6_to_string(&mac), "a4c1388c4193");
    let zero = [0, 0, 0, 0, 0, 0x0f];
    assert_eq!(mac6_to_colon_string(&zero), "00:00:00:00:00:0f");
    assert_eq!(mac6_to_string(&zero), "00000000000f");
}

#[test]
fn mac_key_is_big_endian_value() {
    assert_eq!(mac_key(&[0xa4, 0xc1, 0x38, 0x8c, 0x41, 0x93]), 0xa4c1388c4193);
    assert_ne!(mac_key(&[1, 0, 0, 0, 0, 0]), mac_key(&[0, 0, 0, 0, 0, 1]));
}

#[test]
fn identifier_and_state_topic() {
    let mac = [0xa4, 0xc1, 0x38, 0x8c, 0x41, 0x93];
    let id = hass_identifier(&mac);
    assert_eq!(id, "awuba_ble_a4c1388c4193");
    assert_eq!(state_topic("awuba_iot/".to_string(), id), "awuba_iot/awuba_ble_a4c1388c4193/state");
    assert_eq!(state_topic(String::new(), "x".to_string()), "x/state");
}

#[test]
fn config_defaults() {
    assert_eq!(default_listen_addr(), "0.0.0.0:7443");
    assert_eq!(default_client_id(), "awuba-iot");
    assert_eq!(default_discovery_topic_prefix(), "homeassistant/");
    assert_eq!(default_state_topic_prefix(), "awuba_iot/");
}

#[test]
fn trailing_slash_is_added_once() {
    assert_eq!(ensure_trailing_slash(String::new()), "");
    assert_eq!(ensure_trailing_slash("home".to_string()), "home/");
    assert_eq!(ensure_trailing_slash("home/".to_string()), "home/");
    assert_eq!(ensure_trailing_slash("/".to_string()), "/");
    let once = ensure_trailing_slash("a/b".to_string());
    let twice = ensure_trailing_slash(once.clone());
    assert_eq!(once, "a/b/");
    assert_eq!(twice, once);
    assert_eq!(ensure_trailing_slash("zürich".to_string()), "zürich/");
}

#[test]
fn protocol_names() {
    assert_eq!(ProtocolType::Atc1441.as_str(), "atc1441");
    assert_eq!(ProtocolType::AtcPvvx.as_str(), "atc_pvvx");
    assert_eq!(ProtocolType::AtcPvvx.to_string(), "atc_pvvx");
}

#[test]
fn colon_mac_reads_back() {
    for mac in [[0xa4, 0xc1, 0x38, 0x8c, 0x41, 0x93], [0, 0x0f, 0xf0, 0xff, 0x10, 0x01]] {
        let s = mac6_to_colon_string(&mac);
        assert_eq!(s.len(), 17);
        let parsed: Vec<u8> = s.split(':').map(|f| u8::from_str_radix(f, 16).unwrap()).collect();
        assert_eq!(parsed, mac.to_vec());
        assert_eq!(mac6_to_string(&mac), s.replace(':', ""));
    }
    assert_ne!(mac6_to_string(&[1, 2, 3, 4, 5, 6]), mac6_to_string(&[1, 2, 3, 4, 5, 7]));
}
