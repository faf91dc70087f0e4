//! The configuration: the mesh keys, the lights and the optional servers.

use crate::text::{same_text, texts};
use vstd::prelude::*;
use vstd::string::StringExecFns;

verus! {

/// One light of the mesh.
#[derive(Debug, Clone)]
pub struct LightConfig {
    pub key: String,
    pub name: String,
    pub mac: String,
    pub address: u16,
}

/// A light as contracts speak of it.
pub struct LightView {
    pub key: Seq<char>,
    pub name: Seq<char>,
    pub mac: Seq<char>,
    pub address: u16,
}

impl View for LightConfig {
    type V = LightView;

    open spec fn view(&self) -> LightView {
        LightView {
            key: self.key@,
            name: self.name@,
            mac: self.mac@,
            address: self.address,
        }
    }
}

/// Several lights as contracts speak of them.
pub open spec fn light_views(lights: Seq<LightConfig>) -> Seq<LightView> {
    Seq::new(lights.len(), |i: int| lights[i]@)
}

/// Where the HTTP server listens, and the key that it asks for.
#[derive(Debug, Clone)]
pub struct HttpConfig {
    pub port: u16,
    pub host: String,
    pub api_key: Option<String>,
}

/// The MQTT broker and the topics used there.
#[derive(Debug, Clone)]
pub struct MqttConfig {
    pub broker: String,
    pub username: Option<String>,
    pub password: Option<String>,
    pub discovery_prefix: String,
    pub topic_prefix: String,
}

/// The whole configuration.
#[derive(Debug, Clone)]
pub struct Config {
    pub net_key: String,
    pub app_key: String,
    pub relay_hub: String,
    pub lights: Vec<LightConfig>,
    pub http: Option<HttpConfig>,
    pub mqtt: Option<MqttConfig>,
}

/// The port of the HTTP server where none is configured.
pub fn default_http_port() -> (r: u16)
    ensures
        r == 2708,
{
    2708
}

/// The address of the HTTP server where none is configured.
pub fn default_http_host() -> (r: String)
    ensures
        r@ == "0.0.0.0"@,
{
    "0.0.0.0".to_owned()
}

/// The discovery topic prefix where none is configured.
pub fn default_discovery_prefix() -> (r: String)
    ensures
        r@ == "homeassistant"@,
{
    "homeassistant".to_owned()
}

/// The topic prefix where none is configured.
pub fn default_topic_prefix() -> (r: String)
    ensures
        r@ == "amaran"@,
{
    "amaran".to_owned()
}

/// The path components of the configuration file: an explicit path, or a place below the home
/// directory, or one in the working directory, or the bare file name.
pub open spec fn config_segments(
    explicit: Option<Seq<char>>,
    home: Option<Seq<char>>,
    cwd: Option<Seq<char>>,
) -> Seq<Seq<char>> {
    if let Some(p) = explicit {
        seq![p]
    } else if let Some(h) = home {
        seq![h, ".config"@, "amble"@, "lights.json"@]
    } else if let Some(c) = cwd {
        seq![c, "lights.json"@]
    } else {
        seq!["lights.json"@]
    }
}

/// The characters of an optional text.
pub open spec fn opt_text(s: Option<String>) -> Option<Seq<char>> {
    match s {
        Some(t) => Some(t@),
        None => None,
    }
}

/// The path components of the configuration file, to be joined by the platform's rules.
pub fn config_path(explicit: Option<String>, home: Option<String>, cwd: Option<String>) -> (r: Vec<
    String,
>)
    ensures
        texts(r@) == config_segments(opt_text(explicit), opt_text(home), opt_text(cwd)),
{
    let ghost wanted = config_segments(opt_text(explicit), opt_text(home), opt_text(cwd));
    let mut r: Vec<String> = Vec::new();
    if let Some(p) = explicit {
        r.push(p);
    } else if let Some(h) = home {
        r.push(h);
        r.push(".config".to_owned());
        r.push("amble".to_owned());
        r.push("lights.json".to_owned());
    } else if let Some(c) = cwd {
        r.push(c);
        r.push("lights.json".to_owned());
    } else {
        r.push("lights.json".to_owned());
    }
    assert(texts(r@) =~= wanted);
    r
}

/// What is reported where the configuration file does not exist.
pub fn missing_config_message(path: &str) -> (r: String)
    ensures
        r@ == "lights.json not found at "@ + path@
            + ".\nRun setup first:  cargo run -- setup\nOr set AMBLE_CONFIG to point to your config file\n(default: ~/.config/amble/lights.json)"@,
{
    let mut r = "lights.json not found at ".to_owned();
    r.append(path);
    r.append(
        ".\nRun setup first:  cargo run -- setup\nOr set AMBLE_CONFIG to point to your config file\n(default: ~/.config/amble/lights.json)",
    );
    r
}

/// The HTTP server configuration, with the defaults where there is none.
pub fn http_config(http: Option<HttpConfig>) -> (r: HttpConfig)
    ensures
        http matches Some(h) ==> r == h,
        http is None ==> r.port == 2708 && r.host@ == "0.0.0.0"@ && r.api_key is None,
{
    match http {
        Some(h) => h,
        None => HttpConfig { port: default_http_port(), host: default_http_host(), api_key: None },
    }
}

/// The keys of the lights.
pub fn known_keys(lights: &Vec<LightConfig>) -> (r: Vec<String>)
    ensures
        texts(r@) == Seq::new(lights@.len(), |i: int| lights@[i].key@),
{
    let mut r: Vec<String> = Vec::new();
    let mut i: usize = 0;
    while i < lights.len()
        invariant
            i <= lights@.len(),
            r@.len() == i,
            forall|k: int| 0 <= k < i ==> (#[trigger] r@[k])@ == lights@[k].key@,
        decreases lights@.len() - i,
    {
        r.push(lights[i].key.clone());
        i = i + 1;
    }
    assert(texts(r@) =~= Seq::new(lights@.len(), |i: int| lights@[i].key@));
    r
}

/// The position of the first light with the key `key`, or the number of lights.
pub open spec fn light_position(lights: Seq<LightView>, key: Seq<char>) -> int
    decreases lights.len(),
{
    if lights.len() == 0 || lights[0].key == key {
        0
    } else {
        1 + light_position(lights.drop_first(), key)
    }
}

/// Finds the first light with the key `key`.
pub fn find_light(lights: &Vec<LightConfig>, key: &str) -> (r: Option<usize>)
    ensures
        match r {
            Some(i) => i == light_position(light_views(lights@), key@) && i < lights@.len(),
            None => light_position(light_views(lights@), key@) == lights@.len(),
        },
{
    let ghost all = light_views(lights@);
    let mut i: usize = 0;
    assert(all.skip(0) =~= all);
    while i < lights.len()
        invariant
            i <= lights@.len(),
            all == light_views(lights@),
            light_position(all, key@) == i + light_position(all.skip(i as int), key@),
        decreases lights@.len() - i,
    {
        assert(all.skip(i as int)[0] == lights@[i as int]@);
        if same_text(lights[i].key.as_str(), key) {
            return Some(i);
        }
        assert(all.skip(i as int).drop_first() =~= all.skip(i + 1));
        i = i + 1;
    }
    None
}

/// The configuration file is where it is said to be, or else below the home directory, or else in
/// the working directory.
pub proof fn law_config_places(p: Seq<char>, home: Option<Seq<char>>, cwd: Option<Seq<char>>, h: Seq<
    char,
>)
    ensures
        config_segments(Some(p), home, cwd) == seq![p],
        config_segments(None, Some(h), cwd) == seq![h, ".config"@, "amble"@, "lights.json"@],
        config_segments(None, None, Some(h)) == seq![h, "lights.json"@],
        config_segments(None, None, None) == seq!["lights.json"@],
{
}

/// A light is found by its key: at the first position where a light has it, or nowhere.
pub proof fn law_light_is_found(lights: Seq<LightView>, key: Seq<char>, i: int)
    requires
        0 <= i <= lights.len(),
        forall|j: int| 0 <= j < i ==> (#[trigger] lights[j]).key != key,
        i < lights.len() ==> lights[i].key == key,
    ensures
        light_position(lights, key) == i,
    decreases lights.len(),
{
    if i > 0 {
        assert(lights[0].key != key);
        let rest = lights.drop_first();
        assert forall|j: int| 0 <= j < i - 1 implies (#[trigger] rest[j]).key != key by {
            assert(lights[j + 1].key != key);
        }
        law_light_is_found(rest, key, i - 1);
    }
}

/// What several lights are, one for one and field by field.
pub proof fn law_light_views(lights: Seq<LightConfig>, i: int)
    requires
        0 <= i < lights.len(),
    ensures
        light_views(lights).len() == lights.len(),
        light_views(lights)[i].key == lights[i].key@,
        light_views(lights)[i].name == lights[i].name@,
        light_views(lights)[i].mac == lights[i].mac@,
        light_views(lights)[i].address == lights[i].address,
{
}

/// An optional text is there exactly where its characters are.
pub proof fn law_optional_texts(s: String)
    ensures
        opt_text(Some(s)) == Some(s@),
        opt_text(None) is None,
{
}

} // verus!
