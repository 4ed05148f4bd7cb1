//! Decoding of temperature sensor service data, and the registry that routes a
//! BLE advertisement to the parser registered for its service UUID.

use vstd::prelude::*;

use crate::protocols::atc::{lemma_repeated_packet_refused, AtcParser};
use crate::utils::{spec_uuid16_to_uuid, uuid16_to_uuid};

pub mod atc;

verus! {

/// The sensor firmware format a reading was decoded from.
#[derive(Debug, Clone, Copy, PartialEq, Eq, Hash, Structural)]
pub enum ProtocolType {
    Atc1441,
    AtcPvvx,
}

impl ProtocolType {
    /// The snake-case name of the protocol, as written in device descriptions.
    pub open spec fn spec_name(self) -> Seq<char> {
        match self {
            ProtocolType::Atc1441 => seq!['a', 't', 'c', '1', '4', '4', '1'],
            ProtocolType::AtcPvvx => seq!['a', 't', 'c', '_', 'p', 'v', 'v', 'x'],
        }
    }

    /// The snake-case name of the protocol.
    pub fn as_str(&self) -> (r: &'static str)
        ensures
            r@ == self.spec_name(),
    {
        match self {
            ProtocolType::Atc1441 => {
                let r = "atc1441";
                proof {
                    reveal_strlit("atc1441");
                    assert(r@ =~= self.spec_name());
                }
                r
            },
            ProtocolType::AtcPvvx => {
                let r = "atc_pvvx";
                proof {
                    reveal_strlit("atc_pvvx");
                    assert(r@ =~= self.spec_name());
                }
                r
            },
        }
    }

    /// The snake-case name of the protocol, as an owned string.
    pub fn to_string(&self) -> (r: String)
        ensures
            r@ == self.spec_name(),
    {
        String::from_str(self.as_str())
    }
}

/// A decoded thermometer reading. Temperature and humidity are kept as the
/// integers the sensors send: hundredths of a degree Celsius and hundredths of a
/// percent of relative humidity.
#[derive(Debug, Clone, Copy)]
pub struct ParsedTemperature {
    pub protocol: ProtocolType,
    pub mac: [u8; 6],
    pub temperature_hundredths: i16,
    pub humidity_hundredths: u16,
    pub battery_percent: u8,
    pub battery_mv: u16,
}

/// Why a parser refused a piece of service data.
#[derive(Debug)]
pub enum TemperatureProtocolParserError {
    /// The packet counter is the one last seen from the same sensor.
    DuplicatePacket,
    /// The service data is in no known ATC format.
    AtcInvalid,
    /// A failure reported by another parser.
    Other(String),
}

/// Why the registry could not turn an advertisement into a reading.
#[derive(Debug)]
pub enum RegistryParseError {
    /// The advertisement is malformed or carries no 16-bit service data.
    InvalidFrame,
    /// The parser registered for the service refused its data.
    ProtocolError(TemperatureProtocolParserError),
    /// No parser is registered for the service UUID.
    UnknownService,
}

/// A decoder for the service data of one BLE service.
pub trait TemperatureProtocolParser: Sized {
    /// The service UUID whose data the parser reads.
    spec fn spec_uuid(&self) -> u128;

    /// The parser's internal invariant.
    spec fn inv(&self) -> bool;

    /// Whether parsing `data`, advertised by `mac`, may take the parser from `before`
    /// to `after` and give `result`.
    spec fn parses(
        before: Self,
        mac: [u8; 6],
        data: Seq<u8>,
        after: Self,
        result: Result<ParsedTemperature, TemperatureProtocolParserError>,
    ) -> bool;

    /// The service UUID whose data the parser reads.
    fn uuid(&self) -> (r: u128)
        ensures
            r == self.spec_uuid(),
    ;

    /// Decodes the service data of one advertisement.
    fn parse_service_data(&mut self, mac: [u8; 6], service_data: &[u8]) -> (r: Result<
        ParsedTemperature,
        TemperatureProtocolParserError,
    >)
        requires
            old(self).inv(),
        ensures
            final(self).inv(),
            Self::parses(*old(self), mac, service_data@, *final(self), r),
    ;
}

/// No service UUID occurs twice among `entries`.
pub open spec fn uuids_distinct<P>(entries: Seq<(u128, P)>) -> bool {
    forall|i: int, j: int|
        0 <= i < entries.len() && 0 <= j < entries.len() && i != j ==> #[trigger] entries[i].0
            != #[trigger] entries[j].0
}

/// Some entry is registered under `uuid`.
pub open spec fn registered<P>(entries: Seq<(u128, P)>, uuid: u128) -> bool {
    exists|i: int| 0 <= i < entries.len() && #[trigger] entries[i].0 == uuid
}

/// The position of the entry registered under `uuid` (meaningful when `registered`).
pub open spec fn registered_index<P>(entries: Seq<(u128, P)>, uuid: u128) -> int {
    choose|i: int| 0 <= i < entries.len() && #[trigger] entries[i].0 == uuid
}

/// The parsers of `entries`, by service UUID.
pub open spec fn parser_map<P>(entries: Seq<(u128, P)>) -> Map<u128, P> {
    Map::new(|k: u128| registered(entries, k), |k: u128| entries[registered_index(entries, k)].1)
}

/// In a sequence with distinct UUIDs, the parser found under the UUID at position `i`
/// is the one at position `i`.
proof fn lemma_registered_at<P>(entries: Seq<(u128, P)>, i: int)
    requires
        uuids_distinct(entries),
        0 <= i < entries.len(),
    ensures
        registered(entries, entries[i].0),
        registered_index(entries, entries[i].0) == i,
        parser_map(entries).contains_key(entries[i].0),
        parser_map(entries)[entries[i].0] == entries[i].1,
{
    let k = entries[i].0;
    assert(registered(entries, k));
    let j = registered_index(entries, k);
    assert(entries[j].0 == k);
}

/// Replacing the parser at position `i`, under the same UUID, replaces it in the map.
proof fn lemma_update_map<P>(entries: Seq<(u128, P)>, i: int, parser: P)
    requires
        uuids_distinct(entries),
        0 <= i < entries.len(),
    ensures
        uuids_distinct(entries.update(i, (entries[i].0, parser))),
        parser_map(entries.update(i, (entries[i].0, parser))) == parser_map(entries).insert(
            entries[i].0,
            parser,
        ),
{
    let k = entries[i].0;
    let u = entries.update(i, (k, parser));
    assert forall|a: int, b: int|
        0 <= a < u.len() && 0 <= b < u.len() && a != b implies #[trigger] u[a].0 != #[trigger] u[b].0 by {
        assert(u[a].0 == entries[a].0);
        assert(u[b].0 == entries[b].0);
    }
    let m = parser_map(entries).insert(k, parser);
    assert forall|key: u128| #[trigger] parser_map(u).contains_key(key) == m.contains_key(key) by {
        if registered(entries, key) {
            let j = registered_index(entries, key);
            assert(u[j].0 == key);
        }
        if registered(u, key) {
            let j = registered_index(u, key);
            assert(entries[j].0 == key);
        }
    }
    assert forall|key: u128| #[trigger] parser_map(u).contains_key(key) implies parser_map(u)[key] == m[key] by {
        let j = registered_index(u, key);
        assert(u[j].0 == key);
        lemma_registered_at(u, j);
        if j != i {
            assert(entries[j] == u[j]);
            lemma_registered_at(entries, j);
        }
    }
    assert(parser_map(u) =~= m);
}

/// Appending a parser under a new UUID adds it to the map.
proof fn lemma_push_map<P>(entries: Seq<(u128, P)>, uuid: u128, parser: P)
    requires
        uuids_distinct(entries),
        !registered(entries, uuid),
    ensures
        uuids_distinct(entries.push((uuid, parser))),
        parser_map(entries.push((uuid, parser))) == parser_map(entries).insert(uuid, parser),
{
    let u = entries.push((uuid, parser));
    assert forall|a: int, b: int|
        0 <= a < u.len() && 0 <= b < u.len() && a != b implies #[trigger] u[a].0 != #[trigger] u[b].0 by {
        if a < entries.len() {
            assert(u[a] == entries[a]);
        } else {
            assert(!(entries[b].0 == uuid));
        }
        if b < entries.len() {
            assert(u[b] == entries[b]);
        } else {
            assert(!(entries[a].0 == uuid));
        }
    }
    let m = parser_map(entries).insert(uuid, parser);
    assert forall|key: u128| #[trigger] parser_map(u).contains_key(key) == m.contains_key(key) by {
        if registered(entries, key) {
            let j = registered_index(entries, key);
            assert(u[j].0 == key);
        }
        if registered(u, key) && key != uuid {
            let j = registered_index(u, key);
            assert(j < entries.len());
            assert(entries[j].0 == key);
        }
        if key == uuid {
            assert(u[entries.len() as int].0 == key);
        }
    }
    assert forall|key: u128| #[trigger] parser_map(u).contains_key(key) implies parser_map(u)[key] == m[key] by {
        let j = registered_index(u, key);
        assert(u[j].0 == key);
        lemma_registered_at(u, j);
        if j < entries.len() {
            assert(entries[j] == u[j]);
            lemma_registered_at(entries, j);
        }
    }
    assert(parser_map(u) =~= m);
}

/// One advertising data structure of a BLE advertisement, as far as the registry
/// looks at it.
pub enum AdRecord {
    /// Service data for a 16-bit service UUID (little-endian bytes) and its payload.
    ServiceData16 { uuid: [u8; 2], data: Vec<u8> },
    /// A well-formed structure of another kind.
    Other,
    /// A structure that could not be decoded.
    Invalid,
}

/// The structures that `trouble_host::advertise::AdStructure::decode` yields for
/// `payload`, in order.
pub uninterp spec fn decoded_ad_records(payload: Seq<u8>) -> Seq<AdRecord>;

/// Calls `trouble_host::advertise::AdStructure::decode` and collects every item it
/// yields, telling service data for 16-bit UUIDs, other structures and decoding
/// errors apart.
#[verifier::external_body]
fn decode_ad_records(payload: &[u8]) -> (r: Vec<AdRecord>)
    ensures
        r@ == decoded_ad_records(payload@),
{
    trouble_host::advertise::AdStructure::decode(payload).map(|item| match item {
        Ok(trouble_host::advertise::AdStructure::ServiceData16 { uuid, data }) =>
            AdRecord::ServiceData16 { uuid, data: data.to_vec() },
        Ok(_) => AdRecord::Other,
        Err(_) => AdRecord::Invalid,
    }).collect()
}

/// The 16-bit service UUID and the service data that a frame is parsed by: those of
/// its first service-data structure, provided no undecodable structure comes before it.
pub open spec fn frame_service_data(records: Seq<AdRecord>) -> Option<(u16, Seq<u8>)>
    decreases records.len(),
{
    if records.len() == 0 {
        None
    } else {
        match records[0] {
            AdRecord::ServiceData16 { uuid, data } => Some(
                ((uuid[0] as int + 256 * uuid[1] as int) as u16, data@),
            ),
            AdRecord::Other => frame_service_data(records.drop_first()),
            AdRecord::Invalid => None,
        }
    }
}

/// The parsers of a registry, each under the service UUID it was registered with.
pub struct ParserRegistry<P> {
    parsers: Vec<(u128, P)>,
}

impl<P: TemperatureProtocolParser> ParserRegistry<P> {
    /// The registered (service UUID, parser) pairs.
    pub closed spec fn entries(&self) -> Seq<(u128, P)> {
        self.parsers@
    }

    /// The registered parsers by service UUID.
    pub open spec fn spec_parsers(&self) -> Map<u128, P> {
        parser_map(self.entries())
    }

    /// Each UUID is registered once and every parser satisfies its invariant.
    pub open spec fn wf(&self) -> bool {
        &&& uuids_distinct(self.entries())
        &&& forall|i: int| 0 <= i < self.entries().len() ==> (#[trigger] self.entries()[i]).1.inv()
    }

    /// What `parse` does: a UUID with no parser is refused and changes nothing;
    /// otherwise only that parser changes, as parsing `data` takes it, and its result is
    /// passed on, refusals wrapped as protocol errors.
    pub open spec fn parse_outcome(
        before: Map<u128, P>,
        uuid: u128,
        mac: [u8; 6],
        data: Seq<u8>,
        after: Map<u128, P>,
        result: Result<ParsedTemperature, RegistryParseError>,
    ) -> bool {
        if !before.contains_key(uuid) {
            &&& result == Err::<ParsedTemperature, _>(RegistryParseError::UnknownService)
            &&& after == before
        } else {
            &&& after.contains_key(uuid)
            &&& after == before.insert(uuid, after[uuid])
            &&& match result {
                Ok(t) => P::parses(before[uuid], mac, data, after[uuid], Ok(t)),
                Err(RegistryParseError::ProtocolError(e)) => P::parses(
                    before[uuid],
                    mac,
                    data,
                    after[uuid],
                    Err(e),
                ),
                Err(_) => false,
            }
        }
    }

    /// A registry with no parser.
    pub fn new() -> (r: Self)
        ensures
            r.wf(),
            r.spec_parsers() == Map::<u128, P>::empty(),
    {
        let r = ParserRegistry { parsers: Vec::new() };
        assert(r.spec_parsers() =~= Map::<u128, P>::empty());
        r
    }

    /// Registers `parser` under its service UUID, replacing a parser registered there.
    pub fn with_parser(self, parser: P) -> (r: Self)
        requires
            self.wf(),
            parser.inv(),
        ensures
            r.wf(),
            r.spec_parsers() == self.spec_parsers().insert(parser.spec_uuid(), parser),
    {
        let ghost before = self.entries();
        let mut registry = self;
        let uuid = parser.uuid();
        let n = registry.parsers.len();
        let mut i: usize = 0;
        while i < n
            invariant
                n == registry.parsers@.len(),
                registry.parsers@ == before,
                self.entries() == before,
                uuid == parser.spec_uuid(),
                0 <= i <= n,
                uuids_distinct(before),
                parser.inv(),
                forall|j: int| 0 <= j < before.len() ==> (#[trigger] before[j]).1.inv(),
                forall|j: int| 0 <= j < i ==> (#[trigger] before[j]).0 != uuid,
            decreases n - i,
        {
            if registry.parsers[i].0 == uuid {
                proof {
                    lemma_update_map(before, i as int, parser);
                }
                registry.parsers.set(i, (uuid, parser));
                return registry;
            }
            i = i + 1;
        }
        proof {
            lemma_push_map(before, uuid, parser);
        }
        registry.parsers.push((uuid, parser));
        registry
    }

    /// Parses the service data of service `uuid` with the parser registered for it.
    pub fn parse(&mut self, uuid: u128, mac: [u8; 6], service_data: &[u8]) -> (r: Result<
        ParsedTemperature,
        RegistryParseError,
    >)
        requires
            old(self).wf(),
        ensures
            final(self).wf(),
            Self::parse_outcome(
                old(self).spec_parsers(),
                uuid,
                mac,
                service_data@,
                final(self).spec_parsers(),
                r,
            ),
    {
        let ghost before = self.parsers@;
        let n = self.parsers.len();
        let mut i: usize = 0;
        while i < n
            invariant
                n == self.parsers@.len(),
                self.parsers@ == before,
                old(self).entries() == before,
                0 <= i <= n,
                uuids_distinct(before),
                forall|j: int| 0 <= j < before.len() ==> (#[trigger] before[j]).1.inv(),
                forall|j: int| 0 <= j < i ==> (#[trigger] before[j]).0 != uuid,
            decreases n - i,
        {
            if self.parsers[i].0 == uuid {
                proof {
                    lemma_registered_at(before, i as int);
                }
                let (key, mut parser) = self.parsers.remove(i);
                let result = parser.parse_service_data(mac, service_data);
                let ghost parsed = parser;
                self.parsers.insert(i, (key, parser));
                proof {
                    assert(self.parsers@ =~= before.update(i as int, (before[i as int].0, parsed)));
                    lemma_update_map(before, i as int, parsed);
                    lemma_registered_at(self.parsers@, i as int);
                    assert forall|j: int| 0 <= j < self.parsers@.len() implies (#[trigger] self.parsers@[j]).1.inv() by {
                        if j != i {
                            assert(self.parsers@[j] == before[j]);
                        }
                    }
                }
                let r = match result {
                    Ok(t) => Ok(t),
                    Err(e) => Err(RegistryParseError::ProtocolError(e)),
                };
                return r;
            }
            i = i + 1;
        }
        assert(!registered(before, uuid));
        assert(!self.spec_parsers().contains_key(uuid));
        Err(RegistryParseError::UnknownService)
    }
}

impl<P: TemperatureProtocolParser> ParserRegistry<P> {
    /// What parsing a frame made of `records` does: without usable service data the
    /// frame is refused as invalid and nothing changes; otherwise the service data is
    /// parsed as `parse` does for the expanded service UUID.
    pub open spec fn frame_outcome(
        before: Map<u128, P>,
        records: Seq<AdRecord>,
        mac: [u8; 6],
        after: Map<u128, P>,
        result: Result<ParsedTemperature, RegistryParseError>,
    ) -> bool {
        match frame_service_data(records) {
            None => {
                &&& result == Err::<ParsedTemperature, _>(RegistryParseError::InvalidFrame)
                &&& after == before
            },
            Some((short, data)) => Self::parse_outcome(
                before,
                spec_uuid16_to_uuid(short),
                mac,
                data,
                after,
                result,
            ),
        }
    }

    /// Parses the first 16-bit service data among decoded advertising structures.
    pub fn parse_ad_records(&mut self, mac: [u8; 6], records: &[AdRecord]) -> (r: Result<
        ParsedTemperature,
        RegistryParseError,
    >)
        requires
            old(self).wf(),
        ensures
            final(self).wf(),
            Self::frame_outcome(old(self).spec_parsers(), records@, mac, final(self).spec_parsers(), r),
    {
        let n = records.len();
        let mut i: usize = 0;
        assert(records@.skip(0) =~= records@);
        while i < n
            invariant
                n == records@.len(),
                self.wf(),
                self.spec_parsers() == old(self).spec_parsers(),
                0 <= i <= n,
                frame_service_data(records@) == frame_service_data(records@.skip(i as int)),
            decreases n - i,
        {
            assert(records@.skip(i as int).drop_first() =~= records@.skip(i + 1));
            assert(records@.skip(i as int)[0] == records@[i as int]);
            match &records[i] {
                AdRecord::ServiceData16 { uuid, data } => {
                    let short: u16 = (uuid[0] as u16) + 256 * (uuid[1] as u16);
                    let full = uuid16_to_uuid(short);
                    return self.parse(full, mac, data.as_slice());
                },
                AdRecord::Other => {},
                AdRecord::Invalid => {
                    return Err(RegistryParseError::InvalidFrame);
                },
            }
            i = i + 1;
        }
        assert(records@.skip(n as int).len() == 0);
        Err(RegistryParseError::InvalidFrame)
    }

    /// Parses the first 16-bit service data of a BLE advertisement payload with the
    /// parser registered for its service.
    pub fn parse_frame(&mut self, mac: [u8; 6], payload: &[u8]) -> (r: Result<
        ParsedTemperature,
        RegistryParseError,
    >)
        requires
            old(self).wf(),
        ensures
            final(self).wf(),
            Self::frame_outcome(
                old(self).spec_parsers(),
                decoded_ad_records(payload@),
                mac,
                final(self).spec_parsers(),
                r,
            ),
    {
        let records = decode_ad_records(payload);
        self.parse_ad_records(mac, records.as_slice())
    }
}

impl<P: TemperatureProtocolParser> Default for ParserRegistry<P> {
    /// A registry with no parser.
    fn default() -> (r: Self)
        ensures
            r.wf(),
            r.spec_parsers() == Map::<u128, P>::empty(),
    {
        Self::new()
    }
}

impl ParserRegistry<AtcParser> {
    /// A registry with one ATC parser, under the environmental sensing service `0x181a`.
    pub fn default_handlers() -> (r: Self)
        ensures
            r.wf(),
            r.spec_parsers().dom() == set![spec_uuid16_to_uuid(0x181a)],
            r.spec_parsers()[spec_uuid16_to_uuid(0x181a)].last_packets() == Seq::<(u64, u8)>::empty(),
    {
        let r = Self::new().with_parser(AtcParser::new());
        assert(r.spec_parsers().dom() =~= set![spec_uuid16_to_uuid(0x181a)]);
        r
    }
}

/// A registry refuses as a duplicate the service data that its ATC parser has just
/// accepted or refused as a duplicate, when the same data arrives again for the same
/// service.
pub proof fn lemma_registry_repeated_packet_refused(
    registry: ParserRegistry<AtcParser>,
    uuid: u128,
    mac0: [u8; 6],
    data: Seq<u8>,
    after_first: Map<u128, AtcParser>,
    r1: Result<ParsedTemperature, RegistryParseError>,
    mac1: [u8; 6],
    after_second: Map<u128, AtcParser>,
    r2: Result<ParsedTemperature, RegistryParseError>,
)
    requires
        registry.wf(),
        ParserRegistry::<AtcParser>::parse_outcome(registry.spec_parsers(), uuid, mac0, data, after_first, r1),
        r1 is Ok || r1 matches Err(
            RegistryParseError::ProtocolError(TemperatureProtocolParserError::DuplicatePacket),
        ),
        ParserRegistry::<AtcParser>::parse_outcome(after_first, uuid, mac1, data, after_second, r2),
    ensures
        r2 matches Err(RegistryParseError::ProtocolError(TemperatureProtocolParserError::DuplicatePacket)),
{
    let m0 = registry.spec_parsers();
    assert(m0.contains_key(uuid));
    let i = registered_index(registry.entries(), uuid);
    assert(registry.entries()[i].0 == uuid);
    lemma_registered_at(registry.entries(), i);
    assert(m0[uuid].inv());
    let p0 = m0[uuid];
    let p1 = after_first[uuid];
    let p2 = after_second[uuid];
    let inner1 = match r1 {
        Ok(t) => Ok::<ParsedTemperature, TemperatureProtocolParserError>(t),
        Err(_) => Err(TemperatureProtocolParserError::DuplicatePacket),
    };
    match r2 {
        Ok(t) => {
            lemma_repeated_packet_refused(p0, mac0, data, p1, inner1, mac1, p2, Ok(t));
        },
        Err(RegistryParseError::ProtocolError(e)) => {
            lemma_repeated_packet_refused(p0, mac0, data, p1, inner1, mac1, p2, Err(e));
        },
        Err(_) => {},
    }
}

/// A frame is parsed by its first 16-bit service data, read as a little-endian UUID,
/// provided every record before it is a well-formed record of another kind; an
/// undecodable record before any service data, or no service data at all, leaves
/// nothing to parse.
pub proof fn lemma_frame_service_data_first(records: Seq<AdRecord>, k: int)
    requires
        0 <= k <= records.len(),
        forall|j: int| 0 <= j < k ==> (#[trigger] records[j]) is Other,
    ensures
        k < records.len() ==> (records[k] matches AdRecord::ServiceData16 { uuid, data } ==> frame_service_data(
            records,
        ) == Some(((uuid[0] as int + 256 * uuid[1] as int) as u16, data@))),
        k < records.len() && records[k] is Invalid ==> frame_service_data(records) is None,
        k == records.len() ==> frame_service_data(records) is None,
    decreases k,
{
    if k > 0 {
        let rest = records.drop_first();
        assert forall|j: int| 0 <= j < k - 1 implies (#[trigger] rest[j]) is Other by {
            assert(rest[j] == records[j + 1]);
        }
        lemma_frame_service_data_first(rest, k - 1);
        assert(records[0] is Other);
        if k < records.len() {
            assert(rest[k - 1] == records[k]);
        }
    }
}

impl<P: TemperatureProtocolParser> ParserRegistry<P> {
    /// Parsing leaves the set of registered services and every other service's parser as
    /// they were; a registered service is never refused as unknown, and an unregistered
    /// one always is.
    pub proof fn lemma_parse_touches_only_its_parser(
        before: Map<u128, P>,
        uuid: u128,
        mac: [u8; 6],
        data: Seq<u8>,
        after: Map<u128, P>,
        result: Result<ParsedTemperature, RegistryParseError>,
        other: u128,
    )
        requires
            Self::parse_outcome(before, uuid, mac, data, after, result),
        ensures
            after.dom() == before.dom(),
            other != uuid && before.contains_key(other) ==> after[other] == before[other],
            before.contains_key(uuid) ==> !(result matches Err(RegistryParseError::UnknownService)),
            !before.contains_key(uuid) ==> result matches Err(RegistryParseError::UnknownService),
    {
        if before.contains_key(uuid) {
            assert(after.dom() =~= before.dom());
        }
    }
}

/// The two protocols have different names.
pub proof fn lemma_protocol_names_distinct()
    ensures
        ProtocolType::Atc1441.spec_name() != ProtocolType::AtcPvvx.spec_name(),
{
    assert(ProtocolType::Atc1441.spec_name()[3] != ProtocolType::AtcPvvx.spec_name()[3]);
}

} // verus!
