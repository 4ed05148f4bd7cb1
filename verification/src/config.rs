//! Application settings and their defaults.

use vstd::prelude::*;

verus! {

/// Settings of the websocket endpoint that access points report to.
#[derive(Debug)]
pub struct AppConfig {
    /// The token every access point must present.
    pub access_token: String,
    /// The socket address to listen on.
    pub listen_addr: String,
}

/// Settings of the MQTT connection and topic layout.
#[derive(Debug)]
pub struct MqttConfig {
    pub broker_host: String,
    pub broker_port: u16,
    pub broker_username: Option<String>,
    pub broker_password: Option<String>,
    pub client_id: String,
    /// Prefix of Home Assistant discovery topics, ending in `/` unless empty.
    pub discovery_topic_prefix: String,
    /// Prefix of sensor state topics, ending in `/` unless empty.
    pub state_topic_prefix: String,
}

/// All settings.
#[derive(Debug)]
pub struct Config {
    pub app: AppConfig,
    pub mqtt: MqttConfig,
}

/// The listen address used when none is configured.
pub fn default_listen_addr() -> (r: String)
    ensures
        r@ == "0.0.0.0:7443"@,
{
    String::from_str("0.0.0.0:7443")
}

/// The MQTT client id used when none is configured.
pub fn default_client_id() -> (r: String)
    ensures
        r@ == "awuba-iot"@,
{
    String::from_str("awuba-iot")
}

/// The discovery topic prefix used when none is configured.
pub fn default_discovery_topic_prefix() -> (r: String)
    ensures
        r@ == "homeassistant/"@,
{
    String::from_str("homeassistant/")
}

/// The state topic prefix used when none is configured.
pub fn default_state_topic_prefix() -> (r: String)
    ensures
        r@ == "awuba_iot/"@,
{
    String::from_str("awuba_iot/")
}

/// A topic prefix with a `/` appended, unless it is empty or already ends in one.
pub open spec fn with_trailing_slash(s: Seq<char>) -> Seq<char> {
    if s.len() == 0 || s.last() == '/' {
        s
    } else {
        s.push('/')
    }
}

/// Normalises a configured topic prefix so that topics can be appended to it:
/// a `/` is added unless the prefix is empty or already ends in one.
pub fn ensure_trailing_slash(s: String) -> (r: String)
    ensures
        r@ == with_trailing_slash(s@),
{
    let n = s.as_str().unicode_len();
    if n == 0 {
        return s;
    }
    let last = s.as_str().get_char(n - 1);
    if last == '/' {
        s
    } else {
        let slash = "/";
        proof {
            reveal_strlit("/");
        }
        let mut r = s;
        r.append(slash);
        assert(r@ =~= with_trailing_slash(s@));
        r
    }
}

/// Normalising a prefix twice gives what normalising it once gives; the result is the
/// prefix itself or the prefix with one `/` appended, it is empty exactly when the
/// prefix is, and otherwise it ends in `/`; a prefix already ending in `/` is kept.
pub proof fn lemma_trailing_slash_idempotent(s: Seq<char>)
    ensures
        with_trailing_slash(with_trailing_slash(s)) == with_trailing_slash(s),
        with_trailing_slash(s).len() == 0 || with_trailing_slash(s).last() == '/',
        with_trailing_slash(s) == s || with_trailing_slash(s) == s + seq!['/'],
        (with_trailing_slash(s).len() == 0) == (s.len() == 0),
        s.len() > 0 && s.last() == '/' ==> with_trailing_slash(s) == s,
{
    if s.len() > 0 && s.last() != '/' {
        assert(s.push('/') =~= s + seq!['/']);
    }
}

} // verus!
