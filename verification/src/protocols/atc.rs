//! The ATC custom thermometer firmware formats (atc1441 and pvvx), with
//! suppression of repeated packets.

use vstd::prelude::*;

use crate::lru::{
    has_key, inserted, keys_distinct, lemma_inserted_lookup_other, lemma_inserted_wf,
    lemma_touched_has_key, lemma_touched_lookup, lemma_touched_wf, lookup, touched, LruMap,
};
use crate::protocols::{
    ParsedTemperature, ProtocolType, TemperatureProtocolParser, TemperatureProtocolParserError,
};
use crate::utils::{mac_key, spec_mac_key, spec_uuid16_to_uuid};

verus! {

/// A sensor reading as the decoder returns it, one variant per format.
pub enum AtcReading {
    Atc {
        mac: [u8; 6],
        temperature: i16,
        humidity: u8,
        battery_percent: u8,
        battery_mv: u16,
        packet_counter: u8,
    },
    Pvvx {
        mac: [u8; 6],
        temperature: i16,
        humidity: u16,
        battery_mv: u16,
        battery_percent: u8,
        counter: u8,
        flags: u8,
    },
}

/// The unsigned little-endian value of two bytes.
pub open spec fn le_u16(lo: u8, hi: u8) -> u16 {
    (lo as int + 256 * hi as int) as u16
}

/// The two's-complement little-endian value of two bytes.
pub open spec fn le_i16(lo: u8, hi: u8) -> i16 {
    if hi < 128 {
        (lo as int + 256 * hi as int) as i16
    } else {
        (lo as int + 256 * hi as int - 65536) as i16
    }
}

/// The sensor MAC, sent in reverse byte order at the start of the data.
pub open spec fn reversed_mac(data: Seq<u8>) -> [u8; 6] {
    [data[5], data[4], data[3], data[2], data[1], data[0]]
}

/// What the decoder reads from service data: 13 bytes are the atc1441 format,
/// 15 bytes the pvvx format, and any other length is no reading.
pub open spec fn spec_decode_reading(data: Seq<u8>) -> Option<AtcReading> {
    if data.len() == 13 {
        Some(
            AtcReading::Atc {
                mac: reversed_mac(data),
                temperature: le_i16(data[6], data[7]),
                humidity: data[8],
                battery_percent: data[9],
                battery_mv: le_u16(data[10], data[11]),
                packet_counter: data[12],
            },
        )
    } else if data.len() == 15 {
        Some(
            AtcReading::Pvvx {
                mac: reversed_mac(data),
                temperature: le_i16(data[6], data[7]),
                humidity: le_u16(data[8], data[9]),
                battery_mv: le_u16(data[10], data[11]),
                battery_percent: data[12],
                counter: data[13],
                flags: data[14],
            },
        )
    } else {
        None
    }
}

/// Calls `btsensor::atc::SensorReading::decode` and moves the fields of its result
/// into an `AtcReading`. The crate's source reads 13 bytes as the atc1441 layout and
/// 15 bytes as the pvvx layout (MAC reversed, then little-endian fields), and returns
/// `None` for any other length; this is what the contract states.
#[verifier::external_body]
fn decode_sensor_reading(data: &[u8]) -> (r: Option<AtcReading>)
    ensures
        r == spec_decode_reading(data@),
{
    match btsensor::atc::SensorReading::decode(data)? {
        btsensor::atc::SensorReading::Atc { mac, temperature, humidity, battery_percent, battery_mv, packet_counter } =>
            Some(AtcReading::Atc { mac, temperature, humidity, battery_percent, battery_mv, packet_counter }),
        btsensor::atc::SensorReading::Pvvx { mac, temperature, humidity, battery_mv, battery_percent, counter, flags } =>
            Some(AtcReading::Pvvx { mac, temperature, humidity, battery_mv, battery_percent, counter, flags }),
    }
}

/// Reads `btsensor::atc::UUID`, the environmental sensing service `0x181a`
/// expanded over the Bluetooth base UUID, as a 128-bit integer.
#[verifier::external_body]
fn atc_service_uuid() -> (r: u128)
    ensures
        r == spec_uuid16_to_uuid(0x181a),
{
    btsensor::atc::UUID.as_u128()
}

/// The reading a decoded packet reports: both formats send hundredths of a degree;
/// atc1441 sends whole percents of humidity, pvvx hundredths of a percent.
pub open spec fn spec_reading_report(reading: AtcReading) -> ParsedTemperature {
    match reading {
        AtcReading::Atc { mac, temperature, humidity, battery_percent, battery_mv, .. } => ParsedTemperature {
            protocol: ProtocolType::Atc1441,
            mac,
            temperature_hundredths: temperature,
            humidity_hundredths: (humidity as int * 100) as u16,
            battery_percent,
            battery_mv,
        },
        AtcReading::Pvvx { mac, temperature, humidity, battery_mv, battery_percent, .. } => ParsedTemperature {
            protocol: ProtocolType::AtcPvvx,
            mac,
            temperature_hundredths: temperature,
            humidity_hundredths: humidity,
            battery_percent,
            battery_mv,
        },
    }
}

/// The packet counter of a decoded packet.
pub open spec fn spec_reading_counter(reading: AtcReading) -> u8 {
    match reading {
        AtcReading::Atc { packet_counter, .. } => packet_counter,
        AtcReading::Pvvx { counter, .. } => counter,
    }
}

/// Turns a decoded packet into the reading it reports and its packet counter.
pub fn reading_report(reading: &AtcReading) -> (r: (ParsedTemperature, u8))
    ensures
        r.0 == spec_reading_report(*reading),
        r.1 == spec_reading_counter(*reading),
{
    match reading {
        AtcReading::Atc { mac, temperature, humidity, battery_percent, battery_mv, packet_counter } => (
            ParsedTemperature {
                protocol: ProtocolType::Atc1441,
                mac: *mac,
                temperature_hundredths: *temperature,
                humidity_hundredths: (*humidity as u16) * 100,
                battery_percent: *battery_percent,
                battery_mv: *battery_mv,
            },
            *packet_counter,
        ),
        AtcReading::Pvvx { mac, temperature, humidity, battery_mv, battery_percent, counter, .. } => (
            ParsedTemperature {
                protocol: ProtocolType::AtcPvvx,
                mac: *mac,
                temperature_hundredths: *temperature,
                humidity_hundredths: *humidity,
                battery_percent: *battery_percent,
                battery_mv: *battery_mv,
            },
            *counter,
        ),
    }
}

/// How many sensors the parser remembers the last packet counter of.
pub const LAST_PACKETS_CAPACITY: usize = 512;

/// Parser for the ATC formats that refuses a packet whose counter is the one last
/// seen from the same sensor.
pub struct AtcParser {
    last_packets: LruMap,
}

impl AtcParser {
    /// The remembered (MAC key, packet counter) pairs, least recently used first.
    pub closed spec fn last_packets(&self) -> Seq<(u64, u8)> {
        self.last_packets@
    }

    /// The parser's memory is a well-formed map of its fixed capacity.
    pub closed spec fn wf(&self) -> bool {
        &&& self.last_packets.wf()
        &&& self.last_packets.capacity() == LAST_PACKETS_CAPACITY
    }

    /// The remembered sensors are distinct and at most `LAST_PACKETS_CAPACITY`.
    pub proof fn lemma_memory_wf(&self)
        requires
            self.wf(),
        ensures
            keys_distinct(self.last_packets()),
            self.last_packets().len() <= LAST_PACKETS_CAPACITY,
            LAST_PACKETS_CAPACITY == 512,
    {
    }

    /// What parsing `data` does: unknown formats are refused and leave the memory alone;
    /// otherwise the sensor's entry is marked as recently used, a counter equal to the
    /// remembered one is refused as a duplicate, and any other counter is remembered and
    /// the reading returned.
    pub open spec fn parse_outcome(
        before: Seq<(u64, u8)>,
        data: Seq<u8>,
        after: Seq<(u64, u8)>,
        result: Result<ParsedTemperature, TemperatureProtocolParserError>,
    ) -> bool {
        match spec_decode_reading(data) {
            None => result == Err::<ParsedTemperature, _>(TemperatureProtocolParserError::AtcInvalid)
                && after == before,
            Some(reading) => {
                let report = spec_reading_report(reading);
                let counter = spec_reading_counter(reading);
                let key = spec_mac_key(report.mac@);
                if lookup(before, key) == Some(counter) {
                    &&& result == Err::<ParsedTemperature, _>(TemperatureProtocolParserError::DuplicatePacket)
                    &&& after == touched(before, key)
                } else {
                    &&& result == Ok::<_, TemperatureProtocolParserError>(report)
                    &&& after == inserted(touched(before, key), key, counter, LAST_PACKETS_CAPACITY as nat)
                }
            },
        }
    }

    /// A parser that remembers no packet yet.
    pub fn new() -> (r: Self)
        ensures
            r.wf(),
            r.last_packets() == Seq::<(u64, u8)>::empty(),
    {
        AtcParser { last_packets: LruMap::new(LAST_PACKETS_CAPACITY) }
    }
}

impl TemperatureProtocolParser for AtcParser {
    open spec fn spec_uuid(&self) -> u128 {
        spec_uuid16_to_uuid(0x181a)
    }

    open spec fn inv(&self) -> bool {
        self.wf()
    }

    open spec fn parses(
        before: Self,
        mac: [u8; 6],
        data: Seq<u8>,
        after: Self,
        result: Result<ParsedTemperature, TemperatureProtocolParserError>,
    ) -> bool {
        Self::parse_outcome(before.last_packets(), data, after.last_packets(), result)
    }

    /// The service UUID whose data this parser reads: `0x181a` over the Bluetooth base UUID.
    fn uuid(&self) -> (r: u128) {
        atc_service_uuid()
    }

    /// Decodes ATC service data and refuses a repeated packet. The MAC argument is not
    /// used: the sensor is identified by the MAC inside the data.
    fn parse_service_data(&mut self, _mac: [u8; 6], service_data: &[u8]) -> (r: Result<
        ParsedTemperature,
        TemperatureProtocolParserError,
    >) {
        let decoded = decode_sensor_reading(service_data);
        match decoded {
            None => Err(TemperatureProtocolParserError::AtcInvalid),
            Some(reading) => {
                let (report, counter) = reading_report(&reading);
                let key = mac_key(&report.mac);
                let last = self.last_packets.get(key);
                let duplicate = match last {
                    Some(c) => c == counter,
                    None => false,
                };
                if duplicate {
                    Err(TemperatureProtocolParserError::DuplicatePacket)
                } else {
                    self.last_packets.insert(key, counter);
                    Ok(report)
                }
            },
        }
    }
}

/// The key under which the sensor that sent `data` is remembered, if `data` decodes.
pub open spec fn spec_packet_key(data: Seq<u8>) -> Option<u64> {
    match spec_decode_reading(data) {
        Some(reading) => Some(spec_mac_key(spec_reading_report(reading).mac@)),
        None => None,
    }
}

/// Once a parser has accepted a packet, or refused it as a duplicate, the same service
/// data arriving again, with whatever MAC argument, is refused as a duplicate and leaves
/// every remembered counter as it was.
pub proof fn lemma_repeated_packet_refused(
    p0: AtcParser,
    mac0: [u8; 6],
    data: Seq<u8>,
    p1: AtcParser,
    r1: Result<ParsedTemperature, TemperatureProtocolParserError>,
    mac1: [u8; 6],
    p2: AtcParser,
    r2: Result<ParsedTemperature, TemperatureProtocolParserError>,
)
    requires
        p0.wf(),
        AtcParser::parses(p0, mac0, data, p1, r1),
        r1 is Ok || r1 == Err::<ParsedTemperature, _>(TemperatureProtocolParserError::DuplicatePacket),
        AtcParser::parses(p1, mac1, data, p2, r2),
    ensures
        r2 == Err::<ParsedTemperature, _>(TemperatureProtocolParserError::DuplicatePacket),
        forall|k: u64| #[trigger] lookup(p2.last_packets(), k) == lookup(p1.last_packets(), k),
{
    let reading = spec_decode_reading(data).unwrap();
    let key = spec_mac_key(spec_reading_report(reading).mac@);
    let counter = spec_reading_counter(reading);
    let m0 = p0.last_packets();
    let m1 = p1.last_packets();
    lemma_touched_wf(m0, key);
    lemma_inserted_wf(touched(m0, key), key, counter, LAST_PACKETS_CAPACITY as nat);
    if r1 is Ok {
        assert(lookup(m1, key) == Some(counter));
    } else {
        lemma_touched_lookup(m0, key, key);
        assert(lookup(m1, key) == Some(counter));
    }
    assert(keys_distinct(m1));
    assert forall|k: u64| #[trigger] lookup(p2.last_packets(), k) == lookup(m1, k) by {
        lemma_touched_lookup(m1, key, k);
    }
}

/// Parsing changes the remembered counter of no other sensor: a refused packet changes
/// no remembered counter at all, and an accepted one changes only its own sensor's,
/// provided remembering it forgets no sensor (the memory is not full, or its sensor is
/// already remembered).
pub proof fn lemma_other_sensors_unchanged(
    p0: AtcParser,
    mac: [u8; 6],
    data: Seq<u8>,
    p1: AtcParser,
    r: Result<ParsedTemperature, TemperatureProtocolParserError>,
    k: u64,
)
    requires
        p0.wf(),
        AtcParser::parses(p0, mac, data, p1, r),
    ensures
        r is Err ==> lookup(p1.last_packets(), k) == lookup(p0.last_packets(), k),
        spec_packet_key(data) != Some(k) && (p0.last_packets().len() < 512
            || (spec_packet_key(data) matches Some(key) && has_key(p0.last_packets(), key)))
            ==> lookup(p1.last_packets(), k) == lookup(p0.last_packets(), k),
{
    let m0 = p0.last_packets();
    if let Some(reading) = spec_decode_reading(data) {
        let key = spec_mac_key(spec_reading_report(reading).mac@);
        let counter = spec_reading_counter(reading);
        lemma_touched_wf(m0, key);
        lemma_touched_lookup(m0, key, k);
        lemma_touched_has_key(m0, key, key);
        if r is Ok && k != key && (m0.len() < LAST_PACKETS_CAPACITY || has_key(m0, key)) {
            lemma_inserted_lookup_other(touched(m0, key), key, counter, LAST_PACKETS_CAPACITY as nat, k);
        }
    }
}

/// An accepted packet makes its sensor's counter the remembered one, and a packet in no
/// known format leaves the parser's memory as it was.
pub proof fn lemma_accepted_packet_remembered(
    p0: AtcParser,
    mac: [u8; 6],
    data: Seq<u8>,
    p1: AtcParser,
    r: Result<ParsedTemperature, TemperatureProtocolParserError>,
)
    requires
        p0.wf(),
        AtcParser::parses(p0, mac, data, p1, r),
    ensures
        spec_decode_reading(data) is None ==> p1.last_packets() == p0.last_packets(),
        r is Ok ==> lookup(
            p1.last_packets(),
            spec_mac_key(spec_reading_report(spec_decode_reading(data).unwrap()).mac@),
        ) == Some(spec_reading_counter(spec_decode_reading(data).unwrap())),
{
    if let Some(reading) = spec_decode_reading(data) {
        let key = spec_mac_key(spec_reading_report(reading).mac@);
        let counter = spec_reading_counter(reading);
        let m0 = p0.last_packets();
        lemma_touched_wf(m0, key);
        lemma_inserted_wf(touched(m0, key), key, counter, LAST_PACKETS_CAPACITY as nat);
    }
}

/// What an accepted packet reports, read straight off the service data: 13 bytes are
/// an atc1441 packet and 15 a pvvx packet; the MAC is the first six bytes reversed; the
/// temperature is the signed little-endian value of bytes 6 and 7 in hundredths of a
/// degree; the battery voltage is the little-endian value of bytes 10 and 11; atc1441
/// sends whole percents of humidity in byte 8 and its battery level in byte 9, pvvx
/// hundredths of a percent in bytes 8 and 9 and its battery level in byte 12. Data of
/// any other length is refused as not ATC.
pub proof fn lemma_accepted_reading_fields(
    p0: AtcParser,
    mac: [u8; 6],
    data: Seq<u8>,
    p1: AtcParser,
    r: Result<ParsedTemperature, TemperatureProtocolParserError>,
)
    requires
        AtcParser::parses(p0, mac, data, p1, r),
    ensures
        data.len() != 13 && data.len() != 15 ==> r == Err::<ParsedTemperature, _>(
            TemperatureProtocolParserError::AtcInvalid,
        ),
        r is Ok ==> {
            let t = r->Ok_0;
            &&& data.len() == 13 || data.len() == 15
            &&& t.mac@ == seq![data[5], data[4], data[3], data[2], data[1], data[0]]
            &&& t.temperature_hundredths as int == if data[7] < 128 {
                data[6] as int + 256 * data[7] as int
            } else {
                data[6] as int + 256 * data[7] as int - 65536
            }
            &&& t.battery_mv as int == data[10] as int + 256 * data[11] as int
            &&& data.len() == 13 ==> {
                &&& t.protocol == ProtocolType::Atc1441
                &&& t.humidity_hundredths as int == 100 * data[8] as int
                &&& t.battery_percent == data[9]
            }
            &&& data.len() == 15 ==> {
                &&& t.protocol == ProtocolType::AtcPvvx
                &&& t.humidity_hundredths as int == data[8] as int + 256 * data[9] as int
                &&& t.battery_percent == data[12]
            }
        },
{
    if r is Ok {
        let t = r->Ok_0;
        assert(t.mac@ =~= seq![data[5], data[4], data[3], data[2], data[1], data[0]]);
    }
}

} // verus!
