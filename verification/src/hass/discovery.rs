//! Home Assistant MQTT discovery: the device and sensor descriptions announced on
//! discovery topics.

use vstd::prelude::*;

verus! {

/// The device a sensor belongs to, tying it into Home Assistant's device registry.
#[derive(Debug)]
pub struct MqttDevice {
    /// Connections to the outside world as (type, identifier) pairs, e.g. `("mac", "02:5b:26:a8:dc:12")`.
    pub connections: Option<Vec<(String, String)>>,
    /// IDs that uniquely identify the device.
    pub identifiers: Option<Vec<String>>,
    pub manufacturer: Option<String>,
    pub model: Option<String>,
    pub name: Option<String>,
    pub sw_version: Option<String>,
}

/// A device description as text: connections, identifiers, manufacturer, model,
/// name and firmware version.
pub type MqttDeviceView = (
    Option<Seq<(Seq<char>, Seq<char>)>>,
    Option<Seq<Seq<char>>>,
    Option<Seq<char>>,
    Option<Seq<char>>,
    Option<Seq<char>>,
    Option<Seq<char>>,
);

/// A sensor description as text: suffix, name, device class, unit, value template,
/// state class and entity category.
pub type SensorConfigView = (
    Seq<char>,
    Seq<char>,
    Option<Seq<char>>,
    Option<Seq<char>>,
    Seq<char>,
    Option<Seq<char>>,
    Option<Seq<char>>,
);

impl DeepView for MqttDevice {
    type V = MqttDeviceView;

    open spec fn deep_view(&self) -> MqttDeviceView {
        (
            self.connections.deep_view(),
            self.identifiers.deep_view(),
            self.manufacturer.deep_view(),
            self.model.deep_view(),
            self.name.deep_view(),
            self.sw_version.deep_view(),
        )
    }
}

/// The discovery description of one sensor.
#[derive(Debug)]
pub struct MqttSensorDiscovery {
    pub device: Option<MqttDevice>,
    pub device_class: Option<String>,
    pub name: Option<String>,
    /// The topic the sensor's values are read from.
    pub state_topic: String,
    /// An ID unique to this sensor.
    pub unique_id: String,
    pub unit_of_measurement: Option<String>,
    /// Template extracting the value from a state message.
    pub value_template: Option<String>,
    pub entity_category: Option<String>,
    pub state_class: Option<String>,
}

/// The fixed description of one kind of sensor of a device.
pub struct SensorConfig {
    pub suffix: &'static str,
    pub name: &'static str,
    pub device_class: Option<&'static str>,
    pub unit: Option<&'static str>,
    pub value_template: &'static str,
    pub state_class: Option<&'static str>,
    pub entity_category: Option<&'static str>,
}

impl DeepView for SensorConfig {
    type V = SensorConfigView;

    open spec fn deep_view(&self) -> SensorConfigView {
        (
            self.suffix@,
            self.name@,
            self.device_class.deep_view(),
            self.unit.deep_view(),
            self.value_template@,
            self.state_class.deep_view(),
            self.entity_category.deep_view(),
        )
    }
}

/// A copy of an optional string.
fn clone_opt_string(s: &Option<String>) -> (r: Option<String>)
    ensures
        r.deep_view() == s.deep_view(),
{
    match s {
        Some(v) => Some(v.clone()),
        None => None,
    }
}

/// An owned copy of an optional string slice.
fn opt_str_to_string(s: Option<&str>) -> (r: Option<String>)
    ensures
        r.deep_view() == s.deep_view(),
{
    match s {
        Some(v) => Some(String::from_str(v)),
        None => None,
    }
}

/// A copy of a list of strings.
fn clone_strings(v: &Vec<String>) -> (r: Vec<String>)
    ensures
        r.deep_view() == v.deep_view(),
{
    let mut r: Vec<String> = Vec::new();
    for i in 0..v.len()
        invariant
            r@.len() == i,
            r.deep_view() =~= v.deep_view().take(i as int),
    {
        let ghost prev = r@;
        let c = v[i].clone();
        r.push(c);
        assert(r@ == prev.push(c));
        assert(r.deep_view() =~= v.deep_view().take(i + 1)) by {
            assert(r@[i as int].deep_view() == v@[i as int].deep_view());
        }
    }
    assert(v.deep_view().take(v.len() as int) =~= v.deep_view());
    r
}

/// A copy of a list of string pairs.
fn clone_string_pairs(v: &Vec<(String, String)>) -> (r: Vec<(String, String)>)
    ensures
        r.deep_view() == v.deep_view(),
{
    let mut r: Vec<(String, String)> = Vec::new();
    for i in 0..v.len()
        invariant
            r@.len() == i,
            r.deep_view() =~= v.deep_view().take(i as int),
    {
        let ghost prev = r@;
        let (a, b) = &v[i];
        let c = (a.clone(), b.clone());
        r.push(c);
        assert(r@ == prev.push(c));
        assert(r.deep_view() =~= v.deep_view().take(i + 1)) by {
            assert(r@[i as int].deep_view() == v@[i as int].deep_view());
        }
    }
    assert(v.deep_view().take(v.len() as int) =~= v.deep_view());
    r
}

impl MqttDevice {
    /// A copy of the device description.
    pub fn duplicate(&self) -> (r: Self)
        ensures
            r.deep_view() == self.deep_view(),
    {
        MqttDevice {
            connections: match &self.connections {
                Some(c) => Some(clone_string_pairs(c)),
                None => None,
            },
            identifiers: match &self.identifiers {
                Some(ids) => Some(clone_strings(ids)),
                None => None,
            },
            manufacturer: clone_opt_string(&self.manufacturer),
            model: clone_opt_string(&self.model),
            name: clone_opt_string(&self.name),
            sw_version: clone_opt_string(&self.sw_version),
        }
    }
}

/// The discovery topic of one sensor of a device.
pub open spec fn spec_discovery_topic(prefix: Seq<char>, identifier: Seq<char>, suffix: Seq<char>) -> Seq<char> {
    prefix + "sensor/"@ + identifier + "/"@ + suffix + "/config"@
}

/// `message` announces `sensor` of `device` on its discovery topic, with the device's
/// state topic and the unique id `identifier` `_` suffix.
pub open spec fn is_sensor_announcement(
    message: (String, MqttSensorDiscovery),
    prefix: Seq<char>,
    state_topic: Seq<char>,
    identifier: Seq<char>,
    device: MqttDeviceView,
    sensor: SensorConfigView,
) -> bool {
    let (topic, d) = message;
    let (suffix, name, device_class, unit, value_template, state_class, entity_category) = sensor;
    &&& topic@ == spec_discovery_topic(prefix, identifier, suffix)
    &&& d.device is Some
    &&& d.device.unwrap().deep_view() == device
    &&& d.device_class.deep_view() == device_class
    &&& d.name.deep_view() == Some(name)
    &&& d.state_topic@ == state_topic
    &&& d.unique_id@ == identifier + "_"@ + suffix
    &&& d.unit_of_measurement.deep_view() == unit
    &&& d.value_template.deep_view() == Some(value_template)
    &&& d.entity_category.deep_view() == entity_category
    &&& d.state_class.deep_view() == state_class
}

/// The discovery topic and description of one sensor of a device.
pub fn sensor_announcement(
    discovery_topic_prefix: &str,
    state_topic: &str,
    identifier: &str,
    device: &MqttDevice,
    sensor: &SensorConfig,
) -> (r: (String, MqttSensorDiscovery))
    ensures
        is_sensor_announcement(
            r,
            discovery_topic_prefix@,
            state_topic@,
            identifier@,
            device.deep_view(),
            sensor.deep_view(),
        ),
{
    let mut unique_id = String::from_str(identifier);
    unique_id.append("_");
    unique_id.append(sensor.suffix);
    let mut topic = String::from_str(discovery_topic_prefix);
    topic.append("sensor/");
    topic.append(identifier);
    topic.append("/");
    topic.append(sensor.suffix);
    topic.append("/config");
    let discovery = MqttSensorDiscovery {
        device: Some(device.duplicate()),
        device_class: opt_str_to_string(sensor.device_class),
        name: Some(String::from_str(sensor.name)),
        state_topic: String::from_str(state_topic),
        unique_id,
        unit_of_measurement: opt_str_to_string(sensor.unit),
        value_template: Some(String::from_str(sensor.value_template)),
        entity_category: opt_str_to_string(sensor.entity_category),
        state_class: opt_str_to_string(sensor.state_class),
    };
    (topic, discovery)
}

/// The discovery messages of all `sensors` of a device, in order: the part of
/// publishing a device's sensors that decides what is sent where.
pub fn device_sensor_announcements(
    discovery_topic_prefix: &str,
    state_topic: &str,
    identifier: &str,
    device: &MqttDevice,
    sensors: &Vec<SensorConfig>,
) -> (r: Vec<(String, MqttSensorDiscovery)>)
    ensures
        r@.len() == sensors@.len(),
        forall|i: int|
            0 <= i < sensors@.len() ==> is_sensor_announcement(
                #[trigger] r@[i],
                discovery_topic_prefix@,
                state_topic@,
                identifier@,
                device.deep_view(),
                sensors@[i].deep_view(),
            ),
{
    let mut r: Vec<(String, MqttSensorDiscovery)> = Vec::new();
    for i in 0..sensors.len()
        invariant
            r@.len() == i,
            forall|j: int|
                0 <= j < i ==> is_sensor_announcement(
                    #[trigger] r@[j],
                    discovery_topic_prefix@,
                    state_topic@,
                    identifier@,
                    device.deep_view(),
                    sensors@[j].deep_view(),
                ),
    {
        let m = sensor_announcement(discovery_topic_prefix, state_topic, identifier, device, &sensors[i]);
        r.push(m);
    }
    r
}

/// An announcement carries the sensor's description unchanged: it is published on
/// `<prefix>sensor/<identifier>/<suffix>/config`, its unique id is
/// `<identifier>_<suffix>`, and its device, device class, name, unit, value template,
/// state class and entity category are the device's and the sensor's own.
pub proof fn lemma_announcement_fields(
    message: (String, MqttSensorDiscovery),
    prefix: Seq<char>,
    state_topic: Seq<char>,
    identifier: Seq<char>,
    device: MqttDeviceView,
    sensor: SensorConfigView,
)
    requires
        is_sensor_announcement(message, prefix, state_topic, identifier, device, sensor),
    ensures
        message.0@ == prefix + "sensor/"@ + identifier + "/"@ + sensor.0 + "/config"@,
        message.1.unique_id@ == identifier + "_"@ + sensor.0,
        message.1.state_topic@ == state_topic,
        message.1.device matches Some(d) && d.deep_view() == device,
        message.1.device_class.deep_view() == sensor.2,
        message.1.name.deep_view() == Some(sensor.1),
        message.1.unit_of_measurement.deep_view() == sensor.3,
        message.1.value_template.deep_view() == Some(sensor.4),
        message.1.state_class.deep_view() == sensor.5,
        message.1.entity_category.deep_view() == sensor.6,
{
}

/// Sensors of one device with different suffixes get different unique ids and
/// different discovery topics.
pub proof fn lemma_announcements_distinct(prefix: Seq<char>, identifier: Seq<char>, s1: Seq<char>, s2: Seq<char>)
    requires
        s1 != s2,
    ensures
        identifier + "_"@ + s1 != identifier + "_"@ + s2,
        spec_discovery_topic(prefix, identifier, s1) != spec_discovery_topic(prefix, identifier, s2),
{
    reveal_strlit("/config");
    let head = identifier + "_"@;
    if head + s1 == head + s2 {
        assert(s1 =~= (head + s1).subrange(head.len() as int, (head + s1).len() as int));
        assert(s2 =~= (head + s2).subrange(head.len() as int, (head + s2).len() as int));
    }
    let th = prefix + "sensor/"@ + identifier + "/"@;
    let tail = "/config"@;
    let t1 = spec_discovery_topic(prefix, identifier, s1);
    let t2 = spec_discovery_topic(prefix, identifier, s2);
    assert(t1 == th + s1 + tail);
    assert(t2 == th + s2 + tail);
    if t1 == t2 {
        assert(s1 =~= t1.subrange(th.len() as int, t1.len() - tail.len()));
        assert(s2 =~= t2.subrange(th.len() as int, t2.len() - tail.len()));
    }
}

} // verus!
