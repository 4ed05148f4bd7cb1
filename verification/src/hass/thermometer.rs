//! The Home Assistant description of a BLE thermometer: one device with temperature,
//! humidity, battery and signal strength sensors.

use vstd::prelude::*;

use crate::hass::discovery::{
    device_sensor_announcements, is_sensor_announcement, MqttDevice, MqttDeviceView,
    MqttSensorDiscovery, SensorConfig, SensorConfigView,
};
use crate::protocols::ProtocolType;
use crate::utils::{hex_join, hex_value, lemma_colon_mac_round_trip, mac6_to_colon_string};

verus! {

/// The description of the thermometer with MAC `mac`: its colon-separated MAC as its
/// connection, `identifier` as its identifier, the protocol as its model, and
/// `BLE <protocol> <mac>` as its name.
pub open spec fn spec_thermometer_device(mac: Seq<u8>, identifier: Seq<char>, protocol: ProtocolType) -> MqttDeviceView {
    let colon_mac = hex_join(mac, seq![':']);
    (
        Some(seq![("mac"@, colon_mac)]),
        Some(seq![identifier]),
        None,
        Some(protocol.spec_name()),
        Some("BLE "@ + protocol.spec_name() + " "@ + colon_mac),
        None,
    )
}

/// The sensors every thermometer has, in announcement order.
pub open spec fn spec_thermometer_sensors() -> Seq<SensorConfigView> {
    seq![
        ("temperature"@, "Temperature"@, Some("temperature"@), Some("°C"@), "{{ value_json.temperature }}"@, Some("measurement"@), None),
        ("humidity"@, "Humidity"@, Some("humidity"@), Some("%"@), "{{ value_json.humidity }}"@, Some("measurement"@), None),
        ("battery_pct"@, "Battery"@, Some("battery"@), Some("%"@), "{{ value_json.battery_pct }}"@, Some("measurement"@), Some("diagnostic"@)),
        ("battery_mv"@, "Battery Voltage"@, Some("voltage"@), Some("mV"@), "{{ value_json.battery_mv }}"@, Some("measurement"@), Some("diagnostic"@)),
        ("rssi"@, "RSSI"@, Some("signal_strength"@), Some("dBm"@), "{{ value_json.rssi }}"@, Some("measurement"@), Some("diagnostic"@)),
    ]
}

/// The device description of a thermometer.
pub fn thermometer_device(mac_bytes: &[u8; 6], identifier: &str, protocol_type: ProtocolType) -> (r: MqttDevice)
    ensures
        r.deep_view() == spec_thermometer_device(mac_bytes@, identifier@, protocol_type),
{
    let mac = mac6_to_colon_string(mac_bytes);
    let mut name = String::from_str("BLE ");
    name.append(protocol_type.as_str());
    name.append(" ");
    name.append(mac.as_str());
    let mut connections: Vec<(String, String)> = Vec::new();
    connections.push((String::from_str("mac"), mac));
    let mut identifiers: Vec<String> = Vec::new();
    identifiers.push(String::from_str(identifier));
    let r = MqttDevice {
        connections: Some(connections),
        identifiers: Some(identifiers),
        manufacturer: None,
        model: Some(protocol_type.to_string()),
        name: Some(name),
        sw_version: None,
    };
    assert(r.connections.deep_view() =~= Some(seq![("mac"@, hex_join(mac_bytes@, seq![':']))]));
    assert(r.identifiers.deep_view() =~= Some(seq![identifier@]));
    r
}

/// One sensor description.
fn sensor(
    suffix: &'static str,
    name: &'static str,
    device_class: &'static str,
    unit: &'static str,
    value_template: &'static str,
    entity_category: Option<&'static str>,
) -> (r: SensorConfig)
    ensures
        r.deep_view() == (
            suffix@,
            name@,
            Some(device_class@),
            Some(unit@),
            value_template@,
            Some("measurement"@),
            entity_category.deep_view(),
        ),
{
    SensorConfig {
        suffix,
        name,
        device_class: Some(device_class),
        unit: Some(unit),
        value_template,
        state_class: Some("measurement"),
        entity_category,
    }
}

/// The sensors of a thermometer.
pub fn thermometer_sensors() -> (r: Vec<SensorConfig>)
    ensures
        r.deep_view() == spec_thermometer_sensors(),
{
    let mut r: Vec<SensorConfig> = Vec::new();
    r.push(sensor("temperature", "Temperature", "temperature", "°C", "{{ value_json.temperature }}", None));
    r.push(sensor("humidity", "Humidity", "humidity", "%", "{{ value_json.humidity }}", None));
    r.push(sensor("battery_pct", "Battery", "battery", "%", "{{ value_json.battery_pct }}", Some("diagnostic")));
    r.push(sensor("battery_mv", "Battery Voltage", "voltage", "mV", "{{ value_json.battery_mv }}", Some("diagnostic")));
    r.push(sensor("rssi", "RSSI", "signal_strength", "dBm", "{{ value_json.rssi }}", Some("diagnostic")));
    assert(r.deep_view() =~= spec_thermometer_sensors());
    r
}

/// The discovery messages announcing a thermometer: the part of publishing a
/// thermometer device that decides what is sent where.
pub fn thermometer_announcements(
    state_topic: &str,
    discovery_topic_prefix: &str,
    mac_bytes: &[u8; 6],
    identifier: &str,
    protocol_type: ProtocolType,
) -> (r: Vec<(String, MqttSensorDiscovery)>)
    ensures
        r@.len() == spec_thermometer_sensors().len(),
        forall|i: int|
            0 <= i < r@.len() ==> is_sensor_announcement(
                #[trigger] r@[i],
                discovery_topic_prefix@,
                state_topic@,
                identifier@,
                spec_thermometer_device(mac_bytes@, identifier@, protocol_type),
                spec_thermometer_sensors()[i],
            ),
{
    let device = thermometer_device(mac_bytes, identifier, protocol_type);
    let sensors = thermometer_sensors();
    let r = device_sensor_announcements(discovery_topic_prefix, state_topic, identifier, &device, &sensors);
    assert forall|i: int| 0 <= i < r@.len() implies sensors@[i].deep_view() == spec_thermometer_sensors()[i] by {
        assert(sensors.deep_view()[i] == sensors@[i].deep_view());
    }
    r
}

/// Every thermometer sensor reads its own field of the state message: its value
/// template is `{{ value_json.<suffix> }}`; the suffixes are distinct, and every sensor
/// is a measurement.
pub proof fn lemma_thermometer_sensors_read_own_field()
    ensures
        spec_thermometer_sensors().len() == 5,
        forall|i: int|
            0 <= i < 5 ==> (#[trigger] spec_thermometer_sensors()[i]).4 == "{{ value_json."@
                + spec_thermometer_sensors()[i].0 + " }}"@,
        forall|i: int, j: int|
            0 <= i < 5 && 0 <= j < 5 && i != j ==> (#[trigger] spec_thermometer_sensors()[i]).0
                != (#[trigger] spec_thermometer_sensors()[j]).0,
        forall|i: int|
            0 <= i < 5 ==> (#[trigger] spec_thermometer_sensors()[i]).5 == Some("measurement"@),
{
    reveal_strlit("{{ value_json.");
    reveal_strlit(" }}");
    reveal_strlit("temperature");
    reveal_strlit("humidity");
    reveal_strlit("battery_pct");
    reveal_strlit("battery_mv");
    reveal_strlit("rssi");
    reveal_strlit("{{ value_json.temperature }}");
    reveal_strlit("{{ value_json.humidity }}");
    reveal_strlit("{{ value_json.battery_pct }}");
    reveal_strlit("{{ value_json.battery_mv }}");
    reveal_strlit("{{ value_json.rssi }}");
    let s = spec_thermometer_sensors();
    assert(s[0].4 =~= "{{ value_json."@ + s[0].0 + " }}"@);
    assert(s[1].4 =~= "{{ value_json."@ + s[1].0 + " }}"@);
    assert(s[2].4 =~= "{{ value_json."@ + s[2].0 + " }}"@);
    assert(s[3].4 =~= "{{ value_json."@ + s[3].0 + " }}"@);
    assert(s[4].4 =~= "{{ value_json."@ + s[4].0 + " }}"@);
    assert forall|i: int, j: int| 0 <= i < 5 && 0 <= j < 5 && i != j implies (#[trigger] s[i]).0 != (#[trigger] s[j]).0 by {
        if s[i].0.len() == s[j].0.len() {
            if (i == 2 && j == 3) || (i == 3 && j == 2) {
                assert(s[2].0[8] != s[3].0[8]);
            } else {
                assert(s[i].0[0] != s[j].0[0]);
            }
        }
    }
}

/// A thermometer is described by its MAC: its one connection is `mac` and the colon
/// form of the MAC (17 characters, each field reading back as its byte); its one
/// identifier is the given identifier; its model is the protocol's name; and its name is
/// `BLE`, the model and that colon form, separated by spaces. It names no manufacturer
/// and no firmware version.
pub proof fn lemma_thermometer_device_fields(mac: [u8; 6], identifier: Seq<char>, protocol: ProtocolType)
    ensures
        ({
            let (connections, identifiers, manufacturer, model, name, sw_version) = spec_thermometer_device(
                mac@,
                identifier,
                protocol,
            );
            &&& connections matches Some(c) && c.len() == 1 && c[0].0 == seq!['m', 'a', 'c']
                && c[0].1.len() == 17 && (forall|i: int|
                0 <= i < 6 ==> hex_value(c[0].1[3 * i]) * 16 + hex_value(c[0].1[3 * i + 1]) == #[trigger] mac@[i])
                && name == Some(seq!['B', 'L', 'E', ' '] + protocol.spec_name() + seq![' '] + c[0].1)
            &&& identifiers == Some(seq![identifier])
            &&& model == Some(protocol.spec_name())
            &&& manufacturer is None
            &&& sw_version is None
        }),
{
    reveal_strlit("mac");
    reveal_strlit("BLE ");
    reveal_strlit(" ");
    lemma_colon_mac_round_trip(mac);
    assert("mac"@ =~= seq!['m', 'a', 'c']);
    assert("BLE "@ =~= seq!['B', 'L', 'E', ' ']);
    assert(" "@ =~= seq![' ']);
}

/// Each thermometer sensor has the device class and unit of the quantity it reads:
/// temperature in °C, humidity in %, battery level in %, battery voltage in mV, signal
/// strength in dBm; the battery and signal sensors are diagnostic, the others are not.
pub proof fn lemma_thermometer_sensor_units()
    ensures
        forall|i: int|
            0 <= i < 5 ==> {
                let (suffix, name, device_class, unit, template, state_class, category) = #[trigger] spec_thermometer_sensors()[i];
                &&& suffix == "temperature"@ ==> device_class == Some("temperature"@) && unit == Some("°C"@) && category is None
                &&& suffix == "humidity"@ ==> device_class == Some("humidity"@) && unit == Some("%"@) && category is None
                &&& suffix == "battery_pct"@ ==> device_class == Some("battery"@) && unit == Some("%"@) && category == Some("diagnostic"@)
                &&& suffix == "battery_mv"@ ==> device_class == Some("voltage"@) && unit == Some("mV"@) && category == Some("diagnostic"@)
                &&& suffix == "rssi"@ ==> device_class == Some("signal_strength"@) && unit == Some("dBm"@) && category == Some("diagnostic"@)
            },
        spec_thermometer_sensors().map_values(|s: SensorConfigView| s.0) == seq![
            "temperature"@,
            "humidity"@,
            "battery_pct"@,
            "battery_mv"@,
            "rssi"@,
        ],
{
    reveal_strlit("temperature");
    reveal_strlit("humidity");
    reveal_strlit("battery_pct");
    reveal_strlit("battery_mv");
    reveal_strlit("rssi");
    let s = spec_thermometer_sensors();
    assert(s.map_values(|c: SensorConfigView| c.0) =~= seq!["temperature"@, "humidity"@, "battery_pct"@, "battery_mv"@, "rssi"@]);
    assert forall|i: int| 0 <= i < 5 implies {
        let (suffix, name, device_class, unit, template, state_class, category) = #[trigger] s[i];
        &&& suffix == "temperature"@ ==> device_class == Some("temperature"@) && unit == Some("°C"@) && category is None
        &&& suffix == "humidity"@ ==> device_class == Some("humidity"@) && unit == Some("%"@) && category is None
        &&& suffix == "battery_pct"@ ==> device_class == Some("battery"@) && unit == Some("%"@) && category == Some("diagnostic"@)
        &&& suffix == "battery_mv"@ ==> device_class == Some("voltage"@) && unit == Some("mV"@) && category == Some("diagnostic"@)
        &&& suffix == "rssi"@ ==> device_class == Some("signal_strength"@) && unit == Some("dBm"@) && category == Some("diagnostic"@)
    } by {
        if i != 0 { assert(s[i].0 != "temperature"@) by { assert(s[i].0.len() != 11 || s[i].0[0] != 't'); } }
        if i != 1 { assert(s[i].0 != "humidity"@) by { assert(s[i].0.len() != 8 || s[i].0[0] != 'h'); } }
        if i != 2 { assert(s[i].0 != "battery_pct"@) by { assert(s[i].0.len() != 11 || s[i].0[0] != 'b'); } }
        if i != 3 { assert(s[i].0 != "battery_mv"@) by { assert(s[i].0.len() != 10); } }
        if i != 4 { assert(s[i].0 != "rssi"@) by { assert(s[i].0.len() != 4); } }
    }
}

} // verus!
