//! Handling of the BLE frames that an Aruba access point reports: which frames are
//! read, which readings are published where, and when a device must be announced.

use vstd::prelude::*;

use crate::hass::{
    hass_identifier, lemma_identifier_reads_back, spec_hass_identifier, spec_state_topic, state_topic,
};
use crate::lru::{
    has_key, inserted, keys_distinct, lemma_inserted_lookup_other, lemma_inserted_wf,
    lemma_removed_wf, key_index, lookup, removed, LruMap,
};
use crate::protocols::{
    decoded_ad_records, ParsedTemperature, ParserRegistry, ProtocolType, RegistryParseError,
    TemperatureProtocolParser, TemperatureProtocolParserError,
};
use crate::utils::{
    hex_join, hex_value, lemma_colon_mac_round_trip, lemma_mac_key_bound, lemma_mac_key_injective, mac6_to_colon_string, mac_key, spec_mac_key,
};

verus! {

/// One BLE frame of a telemetry report, as far as the bridge reads it.
pub struct BleFrame {
    /// The frame is a connectable undirected advertisement (`ADV_IND`).
    pub is_adv_ind: bool,
    /// The advertiser's MAC address as reported; six bytes when well-formed.
    pub mac: Vec<u8>,
    /// The advertising payload.
    pub data: Vec<u8>,
    /// Received signal strength in dBm.
    pub rssi: i32,
}

/// Why a frame produced no reading.
#[derive(Debug)]
pub enum FrameSkip {
    /// The frame is not an `ADV_IND` advertisement.
    NotAdvertisement,
    /// The reported MAC address is not six bytes long.
    InvalidMac,
    /// No parser is registered for the frame's service.
    UnknownService,
    /// The reading repeats the sensor's last packet.
    DuplicatePacket,
    /// The service data is in no known ATC format.
    AtcInvalid,
    /// Any other parse failure.
    Unexpected(RegistryParseError),
}

/// The state message published for a reading. Temperature and humidity are in
/// hundredths of a degree Celsius and of a percent.
#[derive(Debug)]
pub struct PublishedThermometerReading {
    pub mac: String,
    pub temperature_hundredths: i16,
    pub humidity_hundredths: u16,
    pub battery_pct: u8,
    pub battery_mv: u16,
    pub rssi: i32,
    pub reporter_mac: String,
}

/// A reading to publish.
#[derive(Debug)]
pub struct ThermometerReport {
    pub reading: ParsedTemperature,
    /// The device's Home Assistant identifier.
    pub identifier: String,
    /// The topic to publish the state message to.
    pub state_topic: String,
    /// The device has not been announced since it was last forgotten: its discovery
    /// messages must be published first.
    pub is_new_device: bool,
    pub payload: PublishedThermometerReading,
}

/// What to do with one frame.
#[derive(Debug)]
pub enum FrameOutcome {
    Skipped(FrameSkip),
    Report(ThermometerReport),
}

/// A number for each protocol, used to keep devices of different protocols apart.
pub open spec fn protocol_index(protocol: ProtocolType) -> int {
    match protocol {
        ProtocolType::Atc1441 => 0,
        ProtocolType::AtcPvvx => 1,
    }
}

/// The key of a (protocol, MAC) pair among announced devices.
pub open spec fn spec_device_key(protocol: ProtocolType, mac: Seq<u8>) -> u64 {
    (protocol_index(protocol) * 0x1_0000_0000_0000 + spec_mac_key(mac) as int) as u64
}

/// The key of a (protocol, MAC) pair among announced devices.
pub fn device_key(protocol: ProtocolType, mac: &[u8; 6]) -> (r: u64)
    ensures
        r == spec_device_key(protocol, mac@),
{
    let k = mac_key(mac);
    match protocol {
        ProtocolType::Atc1441 => k,
        ProtocolType::AtcPvvx => 0x1_0000_0000_0000 + k,
    }
}

/// How many announced devices are remembered.
pub const PUBLISHED_DEVICES_CAPACITY: usize = 512;

/// The devices whose discovery messages have been published, least recently seen
/// first; the oldest is forgotten when more than the capacity would be remembered.
pub struct PublishedDevices {
    devices: LruMap,
}

impl PublishedDevices {
    /// The remembered device keys, least recently seen first (values carry no meaning).
    pub closed spec fn entries(&self) -> Seq<(u64, u8)> {
        self.devices@
    }

    /// The memory is a well-formed map of its fixed capacity.
    pub closed spec fn wf(&self) -> bool {
        &&& self.devices.wf()
        &&& self.devices.capacity() == PUBLISHED_DEVICES_CAPACITY
    }

    /// The remembered devices are distinct and at most `PUBLISHED_DEVICES_CAPACITY`.
    pub proof fn lemma_memory_wf(&self)
        requires
            self.wf(),
        ensures
            keys_distinct(self.entries()),
            self.entries().len() <= PUBLISHED_DEVICES_CAPACITY,
            PUBLISHED_DEVICES_CAPACITY == 512,
    {
    }

    /// The device is remembered as announced.
    pub open spec fn spec_contains(&self, protocol: ProtocolType, mac: Seq<u8>) -> bool {
        has_key(self.entries(), spec_device_key(protocol, mac))
    }

    /// No device is remembered.
    pub fn new() -> (r: Self)
        ensures
            r.wf(),
            r.entries() == Seq::<(u64, u8)>::empty(),
    {
        PublishedDevices { devices: LruMap::new(PUBLISHED_DEVICES_CAPACITY) }
    }

    /// Remembers a device as announced and most recently seen; returns whether it was
    /// not remembered before.
    pub fn note_device(&mut self, protocol: ProtocolType, mac: &[u8; 6]) -> (is_new: bool)
        requires
            old(self).wf(),
        ensures
            final(self).wf(),
            is_new == !old(self).spec_contains(protocol, mac@),
            final(self).entries() == inserted(
                old(self).entries(),
                spec_device_key(protocol, mac@),
                0,
                PUBLISHED_DEVICES_CAPACITY as nat,
            ),
            final(self).spec_contains(protocol, mac@),
    {
        let key = device_key(protocol, mac);
        proof {
            lemma_inserted_wf(self.devices@, key, 0, PUBLISHED_DEVICES_CAPACITY as nat);
        }
        let previous = self.devices.insert(key, 0);
        previous.is_none()
    }

    /// Forgets a device, so that it is announced again when next seen.
    pub fn forget_device(&mut self, protocol: ProtocolType, mac: &[u8; 6])
        requires
            old(self).wf(),
        ensures
            final(self).wf(),
            final(self).entries() == removed(old(self).entries(), spec_device_key(protocol, mac@)),
            !final(self).spec_contains(protocol, mac@),
    {
        let key = device_key(protocol, mac);
        self.devices.remove(key);
    }

    /// Forgets every device, so that each is announced again when next seen.
    pub fn clear(&mut self)
        requires
            old(self).wf(),
        ensures
            final(self).wf(),
            final(self).entries() == Seq::<(u64, u8)>::empty(),
    {
        self.devices.clear();
    }
}

/// A six-byte sequence as an array.
pub open spec fn mac_array(bytes: Seq<u8>) -> [u8; 6] {
    [bytes[0], bytes[1], bytes[2], bytes[3], bytes[4], bytes[5]]
}

/// A MAC address from its reported bytes: `None` unless there are exactly six.
pub fn mac6_from_slice(bytes: &[u8]) -> (r: Option<[u8; 6]>)
    ensures
        bytes@.len() == 6 <==> r is Some,
        r matches Some(mac) ==> mac == mac_array(bytes@) && mac@ == bytes@,
{
    if bytes.len() == 6 {
        let mac = [bytes[0], bytes[1], bytes[2], bytes[3], bytes[4], bytes[5]];
        assert(mac@ =~= bytes@);
        Some(mac)
    } else {
        None
    }
}

/// Whether a telemetry report carries the configured access token.
pub fn access_token_matches(presented: &String, expected: &String) -> (r: bool)
    ensures
        r == (presented@ == expected@),
{
    presented.eq(expected)
}

/// How a parse failure is reported.
pub open spec fn skip_reason(e: RegistryParseError) -> FrameSkip {
    match e {
        RegistryParseError::UnknownService => FrameSkip::UnknownService,
        RegistryParseError::ProtocolError(TemperatureProtocolParserError::DuplicatePacket) => FrameSkip::DuplicatePacket,
        RegistryParseError::ProtocolError(TemperatureProtocolParserError::AtcInvalid) => FrameSkip::AtcInvalid,
        _ => FrameSkip::Unexpected(e),
    }
}

/// The parse result that an outcome stems from.
pub open spec fn frame_result(r: FrameOutcome) -> Result<ParsedTemperature, RegistryParseError> {
    match r {
        FrameOutcome::Report(report) => Ok(report.reading),
        FrameOutcome::Skipped(FrameSkip::UnknownService) => Err(RegistryParseError::UnknownService),
        FrameOutcome::Skipped(FrameSkip::DuplicatePacket) => Err(
            RegistryParseError::ProtocolError(TemperatureProtocolParserError::DuplicatePacket),
        ),
        FrameOutcome::Skipped(FrameSkip::AtcInvalid) => Err(
            RegistryParseError::ProtocolError(TemperatureProtocolParserError::AtcInvalid),
        ),
        FrameOutcome::Skipped(FrameSkip::Unexpected(e)) => Err(e),
        FrameOutcome::Skipped(_) => Err(RegistryParseError::InvalidFrame),
    }
}

/// `report` publishes its reading under the device's identifier and state topic, with
/// the state message the reading, `rssi` and the reporting access point give, and
/// asks for an announcement exactly when the device was not remembered in `announced`.
pub open spec fn is_report(
    report: ThermometerReport,
    state_topic_prefix: Seq<char>,
    reporter_mac: [u8; 6],
    rssi: i32,
    announced: Seq<(u64, u8)>,
) -> bool {
    let reading = report.reading;
    let payload = report.payload;
    &&& report.identifier@ == spec_hass_identifier(reading.mac@)
    &&& report.state_topic@ == spec_state_topic(state_topic_prefix, report.identifier@)
    &&& report.is_new_device == !has_key(announced, spec_device_key(reading.protocol, reading.mac@))
    &&& payload.mac@ == hex_join(reading.mac@, seq![':'])
    &&& payload.temperature_hundredths == reading.temperature_hundredths
    &&& payload.humidity_hundredths == reading.humidity_hundredths
    &&& payload.battery_pct == reading.battery_percent
    &&& payload.battery_mv == reading.battery_mv
    &&& payload.rssi == rssi
    &&& payload.reporter_mac@ == hex_join(reporter_mac@, seq![':'])
}

/// Decides what to do with one reported BLE frame: only `ADV_IND` frames with a
/// six-byte MAC are parsed; a reading is published to the device's state topic, and
/// the device is remembered as announced, the caller announcing it first when it is
/// new; every parse failure skips the frame.
pub fn handle_ble_frame<P: TemperatureProtocolParser>(
    registry: &mut ParserRegistry<P>,
    published: &mut PublishedDevices,
    state_topic_prefix: &str,
    reporter_mac: [u8; 6],
    frame: &BleFrame,
) -> (r: FrameOutcome)
    requires
        old(registry).wf(),
        old(published).wf(),
    ensures
        final(registry).wf(),
        final(published).wf(),
        !frame.is_adv_ind ==> {
            &&& r matches FrameOutcome::Skipped(FrameSkip::NotAdvertisement)
            &&& final(registry).spec_parsers() == old(registry).spec_parsers()
            &&& final(published).entries() == old(published).entries()
        },
        frame.is_adv_ind && frame.mac@.len() != 6 ==> {
            &&& r matches FrameOutcome::Skipped(FrameSkip::InvalidMac)
            &&& final(registry).spec_parsers() == old(registry).spec_parsers()
            &&& final(published).entries() == old(published).entries()
        },
        frame.is_adv_ind && frame.mac@.len() == 6 ==> {
            &&& ParserRegistry::<P>::frame_outcome(
                old(registry).spec_parsers(),
                decoded_ad_records(frame.data@),
                mac_array(frame.mac@),
                final(registry).spec_parsers(),
                frame_result(r),
            )
            &&& match r {
                FrameOutcome::Skipped(skip) => {
                    &&& frame_result(r) is Err
                    &&& skip == skip_reason(frame_result(r)->Err_0)
                    &&& final(published).entries() == old(published).entries()
                },
                FrameOutcome::Report(report) => {
                    &&& is_report(report, state_topic_prefix@, reporter_mac, frame.rssi, old(published).entries())
                    &&& final(published).entries() == inserted(
                        old(published).entries(),
                        spec_device_key(report.reading.protocol, report.reading.mac@),
                        0,
                        PUBLISHED_DEVICES_CAPACITY as nat,
                    )
                },
            }
        },
{
    if !frame.is_adv_ind {
        return FrameOutcome::Skipped(FrameSkip::NotAdvertisement);
    }
    let mac = match mac6_from_slice(frame.mac.as_slice()) {
        Some(m) => m,
        None => {
            return FrameOutcome::Skipped(FrameSkip::InvalidMac);
        },
    };
    let decoded = match registry.parse_frame(mac, frame.data.as_slice()) {
        Ok(t) => t,
        Err(e) => {
            let skip = match e {
                RegistryParseError::UnknownService => FrameSkip::UnknownService,
                RegistryParseError::ProtocolError(TemperatureProtocolParserError::DuplicatePacket) => FrameSkip::DuplicatePacket,
                RegistryParseError::ProtocolError(TemperatureProtocolParserError::AtcInvalid) => FrameSkip::AtcInvalid,
                other => FrameSkip::Unexpected(other),
            };
            return FrameOutcome::Skipped(skip);
        },
    };
    let identifier = hass_identifier(&decoded.mac);
    let topic = state_topic(String::from_str(state_topic_prefix), identifier.clone());
    let is_new_device = published.note_device(decoded.protocol, &decoded.mac);
    let payload = PublishedThermometerReading {
        mac: mac6_to_colon_string(&decoded.mac),
        temperature_hundredths: decoded.temperature_hundredths,
        humidity_hundredths: decoded.humidity_hundredths,
        battery_pct: decoded.battery_percent,
        battery_mv: decoded.battery_mv,
        rssi: frame.rssi,
        reporter_mac: mac6_to_colon_string(&reporter_mac),
    };
    FrameOutcome::Report(ThermometerReport { reading: decoded, identifier, state_topic: topic, is_new_device, payload })
}

/// Different (protocol, MAC) pairs have different device keys, so each device is
/// announced and forgotten on its own.
pub proof fn lemma_device_key_injective(p1: ProtocolType, m1: [u8; 6], p2: ProtocolType, m2: [u8; 6])
    requires
        spec_device_key(p1, m1@) == spec_device_key(p2, m2@),
    ensures
        p1 == p2,
        m1 == m2,
{
    lemma_mac_key_bound(m1);
    lemma_mac_key_bound(m2);
    assert(spec_mac_key(m1@) == spec_mac_key(m2@));
    lemma_mac_key_injective(m1, m2);
}

/// A report publishes its reading unchanged: the state message carries the reading's
/// temperature, humidity, battery level and voltage as they are, the frame's signal
/// strength, and the sensor's and the access point's MACs in colon form (17 characters,
/// each field reading back as its byte); it goes to the prefix, the sensor's identifier
/// (`awuba_ble_` and 12 digits reading back as the sensor's MAC) and `/state`.
pub proof fn lemma_report_publishes_reading(
    report: ThermometerReport,
    state_topic_prefix: Seq<char>,
    reporter_mac: [u8; 6],
    rssi: i32,
    announced: Seq<(u64, u8)>,
)
    requires
        is_report(report, state_topic_prefix, reporter_mac, rssi, announced),
    ensures
        report.payload.temperature_hundredths == report.reading.temperature_hundredths,
        report.payload.humidity_hundredths == report.reading.humidity_hundredths,
        report.payload.battery_pct == report.reading.battery_percent,
        report.payload.battery_mv == report.reading.battery_mv,
        report.payload.rssi == rssi,
        report.payload.mac@.len() == 17,
        report.payload.reporter_mac@.len() == 17,
        forall|i: int|
            0 <= i < 6 ==> hex_value(report.payload.mac@[3 * i]) * 16 + hex_value(
                report.payload.mac@[3 * i + 1],
            ) == #[trigger] report.reading.mac@[i],
        forall|i: int|
            0 <= i < 6 ==> hex_value(report.payload.reporter_mac@[3 * i]) * 16 + hex_value(
                report.payload.reporter_mac@[3 * i + 1],
            ) == #[trigger] reporter_mac@[i],
        report.identifier@.len() == 22,
        forall|i: int|
            0 <= i < 6 ==> hex_value(report.identifier@[10 + 2 * i]) * 16 + hex_value(
                report.identifier@[11 + 2 * i],
            ) == #[trigger] report.reading.mac@[i],
        report.state_topic@ == state_topic_prefix + report.identifier@ + "/state"@,
        report.is_new_device == !has_key(
            announced,
            spec_device_key(report.reading.protocol, report.reading.mac@),
        ),
{
    lemma_colon_mac_round_trip(report.reading.mac);
    lemma_colon_mac_round_trip(reporter_mac);
    lemma_identifier_reads_back(report.reading.mac);
}

/// Each parse failure is reported for what it is: an unknown service, a duplicate
/// packet and data in no ATC format each as themselves, anything else as unexpected.
pub proof fn lemma_skip_reasons(e: TemperatureProtocolParserError)
    ensures
        skip_reason(RegistryParseError::UnknownService) matches FrameSkip::UnknownService,
        skip_reason(RegistryParseError::InvalidFrame) matches FrameSkip::Unexpected(
            RegistryParseError::InvalidFrame,
        ),
        skip_reason(RegistryParseError::ProtocolError(TemperatureProtocolParserError::DuplicatePacket))
            matches FrameSkip::DuplicatePacket,
        skip_reason(RegistryParseError::ProtocolError(TemperatureProtocolParserError::AtcInvalid))
            matches FrameSkip::AtcInvalid,
        e is Other ==> skip_reason(RegistryParseError::ProtocolError(e)) == FrameSkip::Unexpected(
            RegistryParseError::ProtocolError(e),
        ),
{
}

/// The MAC a frame is parsed with is the frame's six reported bytes, in order.
pub proof fn lemma_mac_array_bytes(bytes: Seq<u8>)
    requires
        bytes.len() == 6,
    ensures
        mac_array(bytes)@ == bytes,
{
    assert(mac_array(bytes)@ =~= bytes);
}

/// Remembering one device, or forgetting it, changes whether any other device is
/// remembered only when remembering it forgets the least recently seen device of a
/// full memory of 512.
pub proof fn lemma_other_devices_unchanged(
    devices: PublishedDevices,
    protocol: ProtocolType,
    mac: [u8; 6],
    other_protocol: ProtocolType,
    other_mac: [u8; 6],
)
    requires
        devices.wf(),
        protocol != other_protocol || mac != other_mac,
    ensures
        has_key(removed(devices.entries(), spec_device_key(protocol, mac@)), spec_device_key(other_protocol, other_mac@))
            == devices.spec_contains(other_protocol, other_mac@),
        devices.entries().len() < 512 || devices.spec_contains(protocol, mac@) ==> has_key(
            inserted(devices.entries(), spec_device_key(protocol, mac@), 0, PUBLISHED_DEVICES_CAPACITY as nat),
            spec_device_key(other_protocol, other_mac@),
        ) == devices.spec_contains(other_protocol, other_mac@),
{
    let e = devices.entries();
    let key = spec_device_key(protocol, mac@);
    let other = spec_device_key(other_protocol, other_mac@);
    if key == other {
        lemma_device_key_injective(protocol, mac, other_protocol, other_mac);
    }
    lemma_removed_other(e, key, other);
    if e.len() < 512 || has_key(e, key) {
        lemma_inserted_lookup_other(e, key, 0, PUBLISHED_DEVICES_CAPACITY as nat, other);
        lemma_lookup_has_key(inserted(e, key, 0, PUBLISHED_DEVICES_CAPACITY as nat), other);
        lemma_lookup_has_key(e, other);
    }
}

/// A key is present exactly when a value is found under it.
proof fn lemma_lookup_has_key(entries: Seq<(u64, u8)>, key: u64)
    ensures
        has_key(entries, key) == (lookup(entries, key) is Some),
{
}

/// Dropping one key keeps every other key present or absent as it was.
proof fn lemma_removed_other(entries: Seq<(u64, u8)>, key: u64, other: u64)
    requires
        keys_distinct(entries),
        key != other,
    ensures
        has_key(removed(entries, key), other) == has_key(entries, other),
{
    lemma_removed_wf(entries, key);
    if has_key(entries, key) {
        let i = key_index(entries, key);
        let r = removed(entries, key);
        if has_key(entries, other) {
            let j = key_index(entries, other);
            let rj = if j < i { j } else { j - 1 };
            assert(r[rj] == entries[j]);
        }
        if has_key(r, other) {
            let j = key_index(r, other);
            let ej = if j < i { j } else { j + 1 };
            assert(r[j] == entries[ej]);
        }
    }
}

/// A report carries exactly the reading that parsing gave, and the reason a frame was
/// skipped tells exactly which parse failure it was.
pub proof fn lemma_outcome_reflects_parse(report: ThermometerReport, e: RegistryParseError)
    ensures
        frame_result(FrameOutcome::Report(report)) == Ok::<ParsedTemperature, RegistryParseError>(report.reading),
        frame_result(FrameOutcome::Skipped(skip_reason(e))) == Err::<ParsedTemperature, RegistryParseError>(e),
{
}

} // verus!
