use awuba_iot::protocols::atc::AtcParser;
use awuba_iot::protocols::{
    AdRecord, ParserRegistry, ProtocolType, RegistryParseError, TemperatureProtocolParser,
    TemperatureProtocolParserError,
};

const ATC_PACKET: [u8; 13] = [0xff, 0xee, 0xdd, 0xcc, 0xbb, 0xaa, 0x37, 0x08, 42, 89, 0xf6, 0x05, 0x00];
const PVVX_PACKET: [u8; 15] = [
    0x93, 0x41, 0x8c, 0x38, 0xc1, 0xa4, 0xac, 0x08, 0x9e, 0x14, 0xa0, 0x0b, 100, 136, 0x04,
];

fn atc_packet(mac_low: u8, counter: u8) -> Vec<u8> {
    let mut p = ATC_PACKET.to_vec();
    p[0] = mac_low;
    p[1] = 0;
    p[12] = counter;
    p
}

/// An advertisement with flags and 16-bit service data.
fn frame(service: u16, data: &[u8]) -> Vec<u8> {
    let mut f = vec![0x02, 0x01, 0x06, (data.len() + 3) as u8, 0x16];
    f.extend_from_slice(&service.to_le_bytes());
    f.extend_from_slice(data);
    f
}

#[test]
fn atc_uuid_is_environmental_sensing() {
    assert_eq!(AtcParser::new().uuid(), 0x0000181a_0000_1000_8000_00805f9b34fb);
}

#[test]
fn decodes_atc1441() {
    let mut p = AtcParser::new();
    let t = p.parse_service_data([0; 6], &ATC_PACKET).unwrap();
    assert_eq!(t.protocol, ProtocolType::Atc1441);
    assert_eq!(t.mac, [0xaa, 0xbb, 0xcc, 0xdd, 0xee, 0xff]);
    assert_eq!(t.temperature_hundredths, 2103);
    assert_eq!(t.humidity_hundredths, 4200);
    assert_eq!(t.battery_percent, 89);
    assert_eq!(t.battery_mv, 1526);
}

#[test]
fn decodes_pvvx() {
    let mut p = AtcParser::new();
    let t = p.parse_service_data([0; 6], &PVVX_PACKET).unwrap();
    assert_eq!(t.protocol, ProtocolType::AtcPvvx);
    assert_eq!(t.mac, [0xa4, 0xc1, 0x38, 0x8c, 0x41, 0x93]);
    assert_eq!(t.temperature_hundredths, 2220);
    assert_eq!(t.humidity_hundredths, 5278);
    assert_eq!(t.battery_percent, 100);
    assert_eq!(t.battery_mv, 2976);
}

#[test]
fn decodes_negative_temperature() {
    let mut p = AtcParser::new();
    let mut packet = ATC_PACKET;
    packet[6] = 0x18;
    packet[7] = 0xfc;
    let t = p.parse_service_data([0; 6], &packet).unwrap();
    assert_eq!(t.temperature_hundredths, -1000);
}

#[test]
fn refuses_unknown_lengths() {
    let mut p = AtcParser::new();
    assert!(matches!(p.parse_service_data([0; 6], &[]), Err(TemperatureProtocolParserError::AtcInvalid)));
    assert!(matches!(
        p.parse_service_data([0; 6], &ATC_PACKET[..12]),
        Err(TemperatureProtocolParserError::AtcInvalid)
    ));
    assert!(matches!(p.parse_service_data([0; 6], &[0u8; 14]), Err(TemperatureProtocolParserError::AtcInvalid)));
}

#[test]
fn repeated_packet_is_duplicate() {
    let mut p = AtcParser::new();
    assert!(p.parse_service_data([0; 6], &ATC_PACKET).is_ok());
    assert!(matches!(
        p.parse_service_data([1; 6], &ATC_PACKET),
        Err(TemperatureProtocolParserError::DuplicatePacket)
    ));
}

#[test]
fn new_counter_is_accepted_and_old_one_then_too() {
    let mut p = AtcParser::new();
    assert!(p.parse_service_data([0; 6], &atc_packet(1, 5)).is_ok());
    assert!(p.parse_service_data([0; 6], &atc_packet(1, 6)).is_ok());
    // only the last counter is remembered
    assert!(p.parse_service_data([0; 6], &atc_packet(1, 5)).is_ok());
    assert!(matches!(
        p.parse_service_data([0; 6], &atc_packet(1, 5)),
        Err(TemperatureProtocolParserError::DuplicatePacket)
    ));
}

#[test]
fn sensors_are_tracked_separately() {
    let mut p = AtcParser::new();
    assert!(p.parse_service_data([0; 6], &atc_packet(1, 7)).is_ok());
    assert!(p.parse_service_data([0; 6], &atc_packet(2, 7)).is_ok());
    assert!(matches!(
        p.parse_service_data([0; 6], &atc_packet(1, 7)),
        Err(TemperatureProtocolParserError::DuplicatePacket)
    ));
}

fn many_packet(i: u16, counter: u8) -> Vec<u8> {
    let mut p = ATC_PACKET.to_vec();
    p[0] = (i & 0xff) as u8;
    p[1] = (i >> 8) as u8;
    p[2] = 0x77;
    p[12] = counter;
    p
}

#[test]
fn least_recently_seen_sensor_is_forgotten() {
    let mut p = AtcParser::new();
    for i in 0..512u16 {
        assert!(p.parse_service_data([0; 6], &many_packet(i, 3)).is_ok());
    }
    // all 512 remembered
    assert!(matches!(
        p.parse_service_data([0; 6], &many_packet(0, 3)),
        Err(TemperatureProtocolParserError::DuplicatePacket)
    ));
    // sensor 0 was just looked up, so sensor 1 is now the least recently seen
    assert!(p.parse_service_data([0; 6], &many_packet(512, 3)).is_ok());
    assert!(matches!(
        p.parse_service_data([0; 6], &many_packet(0, 3)),
        Err(TemperatureProtocolParserError::DuplicatePacket)
    ));
    assert!(p.parse_service_data([0; 6], &many_packet(1, 3)).is_ok());
}

#[test]
fn registry_routes_by_service_uuid() {
    let mut r = ParserRegistry::default_handlers();
    let uuid = 0x0000181a_0000_1000_8000_00805f9b34fb;
    assert!(r.parse(uuid, [0; 6], &ATC_PACKET).is_ok());
    assert!(matches!(
        r.parse(uuid, [0; 6], &ATC_PACKET),
        Err(RegistryParseError::ProtocolError(TemperatureProtocolParserError::DuplicatePacket))
    ));
    assert!(matches!(r.parse(uuid + 1, [0; 6], &ATC_PACKET), Err(RegistryParseError::UnknownService)));
    assert!(matches!(
        r.parse(uuid, [0; 6], &[1, 2, 3]),
        Err(RegistryParseError::ProtocolError(TemperatureProtocolParserError::AtcInvalid))
    ));
}

#[test]
fn empty_registry_knows_no_service() {
    let mut r: ParserRegistry<AtcParser> = ParserRegistry::new();
    assert!(matches!(
        r.parse(0x0000181a_0000_1000_8000_00805f9b34fb, [0; 6], &ATC_PACKET),
        Err(RegistryParseError::UnknownService)
    ));
    let mut d: ParserRegistry<AtcParser> = ParserRegistry::default();
    assert!(matches!(d.parse_frame([0; 6], &frame(0x181a, &ATC_PACKET)), Err(RegistryParseError::UnknownService)));
}

#[test]
fn with_parser_replaces_parser_of_same_service() {
    let mut r = ParserRegistry::new().with_parser(AtcParser::new());
    let uuid = 0x0000181a_0000_1000_8000_00805f9b34fb;
    assert!(r.parse(uuid, [0; 6], &ATC_PACKET).is_ok());
    let mut r = r.with_parser(AtcParser::new());
    // the fresh parser has not seen the packet
    assert!(r.parse(uuid, [0; 6], &ATC_PACKET).is_ok());
}

#[test]
fn parse_frame_reads_service_data() {
    let mut r = ParserRegistry::default_handlers();
    let t = r.parse_frame([9; 6], &frame(0x181a, &PVVX_PACKET)).unwrap();
    assert_eq!(t.protocol, ProtocolType::AtcPvvx);
    assert_eq!(t.temperature_hundredths, 2220);
    assert!(matches!(
        r.parse_frame([9; 6], &frame(0x181a, &PVVX_PACKET)),
        Err(RegistryParseError::ProtocolError(TemperatureProtocolParserError::DuplicatePacket))
    ));
}

#[test]
fn parse_frame_refusals() {
    let mut r = ParserRegistry::default_handlers();
    // empty payload, no service data
    assert!(matches!(r.parse_frame([0; 6], &[]), Err(RegistryParseError::InvalidFrame)));
    assert!(matches!(r.parse_frame([0; 6], &[0x02, 0x01, 0x06]), Err(RegistryParseError::InvalidFrame)));
    // a structure shorter than its type byte
    assert!(matches!(r.parse_frame([0; 6], &[0x01, 0x16]), Err(RegistryParseError::InvalidFrame)));
    // a structure running past the end
    assert!(matches!(r.parse_frame([0; 6], &[0x10, 0x16, 0x1a, 0x18]), Err(RegistryParseError::InvalidFrame)));
    // another service
    assert!(matches!(r.parse_frame([0; 6], &frame(0x181b, &ATC_PACKET)), Err(RegistryParseError::UnknownService)));
    // service data of the right service in an unknown format
    assert!(matches!(
        r.parse_frame([0; 6], &frame(0x181a, &[1, 2, 3])),
        Err(RegistryParseError::ProtocolError(TemperatureProtocolParserError::AtcInvalid))
    ));
}

#[test]
fn parse_frame_stops_at_first_service_data() {
    let mut r = ParserRegistry::default_handlers();
    let mut payload = frame(0x181b, &[1, 2]);
    payload.extend_from_slice(&frame(0x181a, &ATC_PACKET));
    assert!(matches!(r.parse_frame([0; 6], &payload), Err(RegistryParseError::UnknownService)));
    // an invalid structure before the service data ends the frame
    let mut payload = vec![0x00];
    payload.extend_from_slice(&frame(0x181a, &ATC_PACKET));
    assert!(matches!(r.parse_frame([0; 6], &payload), Err(RegistryParseError::InvalidFrame)));
}

#[test]
fn parse_ad_records_uses_little_endian_uuid() {
    let mut r = ParserRegistry::default_handlers();
    let records = vec![
        AdRecord::Other,
        AdRecord::ServiceData16 { uuid: [0x1a, 0x18], data: ATC_PACKET.to_vec() },
    ];
    assert!(r.parse_ad_records([0; 6], &records).is_ok());
    let swapped = vec![AdRecord::ServiceData16 { uuid: [0x18, 0x1a], data: ATC_PACKET.to_vec() }];
    assert!(matches!(r.parse_ad_records([0; 6], &swapped), Err(RegistryParseError::UnknownService)));
    let invalid = vec![AdRecord::Invalid, AdRecord::ServiceData16 { uuid: [0x1a, 0x18], data: vec![] }];
    assert!(matches!(r.parse_ad_records([0; 6], &invalid), Err(RegistryParseError::InvalidFrame)));
    assert!(matches!(r.parse_ad_records([0; 6], &[]), Err(RegistryParseError::InvalidFrame)));
}

#[test]
fn duplicate_stays_duplicate_and_others_keep_counters() {
    let mut p = AtcParser::new();
    assert!(p.parse_service_data([0; 6], &atc_packet(1, 9)).is_ok());
    assert!(p.parse_service_data([0; 6], &atc_packet(2, 4)).is_ok());
    for _ in 0..3 {
        assert!(matches!(
            p.parse_service_data([0; 6], &atc_packet(1, 9)),
            Err(TemperatureProtocolParserError::DuplicatePacket)
        ));
    }
    // sensor 2's counter was not disturbed by sensor 1's packets
    assert!(matches!(
        p.parse_service_data([0; 6], &atc_packet(2, 4)),
        Err(TemperatureProtocolParserError::DuplicatePacket)
    ));
}
