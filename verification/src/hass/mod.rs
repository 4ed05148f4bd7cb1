//! Home Assistant naming: device identifiers and MQTT topics.

use vstd::prelude::*;

use crate::utils::{hex_join, hex_value, lemma_plain_mac_round_trip, mac6_to_string};

pub mod discovery;
pub mod thermometer;

verus! {

/// The identifier of the device with MAC `mac`: `awuba_ble_` and the plain hex MAC.
pub open spec fn spec_hass_identifier(mac: Seq<u8>) -> Seq<char> {
    "awuba_ble_"@ + hex_join(mac, Seq::empty())
}

/// The Home Assistant identifier of a sensor, e.g. `awuba_ble_a4c1388c4193`.
pub fn hass_identifier(mac: &[u8; 6]) -> (r: String)
    ensures
        r@ == spec_hass_identifier(mac@),
{
    let hex = mac6_to_string(mac);
    let mut r = String::from_str("awuba_ble_");
    r.append(hex.as_str());
    r
}

/// The state topic of a device: the prefix, the identifier and `/state`.
pub open spec fn spec_state_topic(prefix: Seq<char>, identifier: Seq<char>) -> Seq<char> {
    prefix + identifier + "/state"@
}

/// The MQTT topic a device's readings are published to.
pub fn state_topic(prefix: String, identifier: String) -> (r: String)
    ensures
        r@ == spec_state_topic(prefix@, identifier@),
{
    let mut r = prefix;
    r.append(identifier.as_str());
    r.append("/state");
    r
}

/// A device identifier is `awuba_ble_` followed by twelve hexadecimal digits, two per
/// MAC byte in order, each pair reading back as its byte.
pub proof fn lemma_identifier_reads_back(mac: [u8; 6])
    ensures
        spec_hass_identifier(mac@).len() == 22,
        spec_hass_identifier(mac@).subrange(0, 10) == seq!['a', 'w', 'u', 'b', 'a', '_', 'b', 'l', 'e', '_'],
        forall|i: int|
            0 <= i < 6 ==> hex_value(spec_hass_identifier(mac@)[10 + 2 * i]) * 16 + hex_value(
                spec_hass_identifier(mac@)[11 + 2 * i],
            ) == #[trigger] mac@[i],
{
    reveal_strlit("awuba_ble_");
    let prefix = "awuba_ble_"@;
    let plain = hex_join(mac@, Seq::empty());
    lemma_plain_mac_round_trip(mac);
    let id = spec_hass_identifier(mac@);
    assert(id == prefix + plain);
    assert(prefix.len() == 10);
    assert(id.subrange(0, 10) =~= seq!['a', 'w', 'u', 'b', 'a', '_', 'b', 'l', 'e', '_']);
    assert forall|i: int|
        0 <= i < 6 implies hex_value(id[10 + 2 * i]) * 16 + hex_value(id[11 + 2 * i]) == #[trigger] mac@[i] by {
        assert(id[10 + 2 * i] == plain[2 * i]);
        assert(id[11 + 2 * i] == plain[2 * i + 1]);
    }
}

/// Different MACs have different identifiers (and so different state topics).
pub proof fn lemma_identifier_injective(a: [u8; 6], b: [u8; 6])
    requires
        spec_hass_identifier(a@) == spec_hass_identifier(b@),
    ensures
        a == b,
{
    lemma_identifier_reads_back(a);
    lemma_identifier_reads_back(b);
    assert forall|i: int| 0 <= i < 6 implies a@[i] == b@[i] by {
        assert(a@[i] == hex_value(spec_hass_identifier(a@)[10 + 2 * i]) * 16 + hex_value(spec_hass_identifier(a@)[11 + 2 * i]));
        assert(b@[i] == hex_value(spec_hass_identifier(b@)[10 + 2 * i]) * 16 + hex_value(spec_hass_identifier(b@)[11 + 2 * i]));
    }
    assert(a@ =~= b@);
}

/// A state topic is the prefix, then the identifier, then `/state`; so the topics of
/// different identifiers under one prefix differ.
pub proof fn lemma_state_topic_shape(prefix: Seq<char>, a: Seq<char>, b: Seq<char>)
    ensures
        spec_state_topic(prefix, a).len() == prefix.len() + a.len() + 6,
        spec_state_topic(prefix, a).subrange(0, prefix.len() as int) == prefix,
        spec_state_topic(prefix, a).subrange(prefix.len() as int, (prefix.len() + a.len()) as int) == a,
        spec_state_topic(prefix, a).subrange((prefix.len() + a.len()) as int, (prefix.len() + a.len() + 6) as int)
            == seq!['/', 's', 't', 'a', 't', 'e'],
        spec_state_topic(prefix, a) == spec_state_topic(prefix, b) ==> a == b,
{
    reveal_strlit("/state");
    let ta = spec_state_topic(prefix, a);
    let tb = spec_state_topic(prefix, b);
    assert("/state"@ =~= seq!['/', 's', 't', 'a', 't', 'e']);
    assert(ta.subrange(0, prefix.len() as int) =~= prefix);
    assert(ta.subrange(prefix.len() as int, (prefix.len() + a.len()) as int) =~= a);
    assert(ta.subrange((prefix.len() + a.len()) as int, (prefix.len() + a.len() + 6) as int) =~= seq!['/', 's', 't', 'a', 't', 'e']);
    if ta == tb {
        assert(tb.len() == prefix.len() + b.len() + 6);
        assert(tb.subrange(prefix.len() as int, (prefix.len() + b.len()) as int) =~= b);
        assert(a =~= b);
    }
}

} // verus!
