use amble::config::{
    config_path, default_discovery_prefix, default_http_host, default_http_port,
    default_topic_prefix, missing_config_message, Config, LightConfig,
};
use amble::setup::{
    affirmed, empty_key_message, hub_name, import_keys, import_lights, light_key, manual_light,
    not_refused, pick_relay_hub, rename_light, short_key, Fixture, Question, Stage, Wizard,
};

fn light(name: &str, mac: &str) -> LightConfig {
    LightConfig { key: "k".into(), name: name.into(), mac: mac.into(), address: 2 }
}

fn three() -> Vec<LightConfig> {
    vec![light("A", "aa"), light("B", "bb"), light("C", "cc")]
}

#[test]
fn configuration_paths() {
    let s = |t: &str| Some(t.to_string());
    assert_eq!(config_path(s("/x.json"), s("/home/a"), s("/w")), vec!["/x.json"]);
    assert_eq!(
        config_path(None, s("/home/a"), s("/w")),
        vec!["/home/a", ".config", "amble", "lights.json"]
    );
    assert_eq!(config_path(None, None, s("/w")), vec!["/w", "lights.json"]);
    assert_eq!(config_path(None, None, None), vec!["lights.json"]);
    assert!(missing_config_message("/w/lights.json")
        .starts_with("lights.json not found at /w/lights.json.\nRun setup first:"));
}

#[test]
fn configuration_defaults() {
    assert_eq!(default_http_port(), 2708);
    assert_eq!(default_http_host(), "0.0.0.0");
    assert_eq!(default_discovery_prefix(), "homeassistant");
    assert_eq!(default_topic_prefix(), "amaran");
}

#[test]
fn keys_of_lights() {
    assert_eq!(light_key("Key Light", 2), "keylight");
    assert_eq!(light_key("Amaran 200x S", 2), "amaran20");
    assert_eq!(light_key("B-1", 2), "b1");
    assert_eq!(light_key("\u{e9}\u{e9}!", 17), "light17");
    assert_eq!(light_key("", 65535), "light65535");
    assert_eq!(short_key("12345678", 2), "12345678");
    assert_eq!(short_key("1 2 3 4 5 6 7 8 9", 2), "12345678");
}

#[test]
fn lights_are_imported() {
    let row = |mac: &str, address: i64, name: &str| {
        Some(Fixture { mac: mac.into(), address, name: name.into() })
    };
    let lights = import_lights(&vec![
        row(" A4 ", 2, " Key Light\n"),
        None,
        row("A5", 1, "too low"),
        row("A6", 65536 + 3, "wrapped"),
        row("A7", 65537, "wrapped too low"),
        row("A8", -1, ""),
    ]);
    let seen: Vec<(&str, &str, &str, u16)> = lights
        .iter()
        .map(|l| (l.key.as_str(), l.name.as_str(), l.mac.as_str(), l.address))
        .collect();
    assert_eq!(
        seen,
        vec![
            ("keylight", "Key Light", "A4", 2),
            ("wrapped", "wrapped", "A6", 3),
            ("light65535", "", "A8", 65535),
        ]
    );
}

#[test]
fn keys_are_imported() {
    assert_eq!(import_keys(" ab\n", "cd"), Some(("AB".into(), "CD".into())));
    assert_eq!(import_keys(" ", "cd"), None);
    assert_eq!(import_keys("ab", ""), None);
    assert_eq!(empty_key_message(), "could not read net_key/app_key from mesh table");
}

#[test]
fn answers() {
    assert!(not_refused("") && not_refused("yes") && !not_refused("No") && !not_refused("n"));
    assert!(affirmed("Y") && affirmed("yes") && !affirmed("") && !affirmed("no"));
}

#[test]
fn the_hub_is_picked() {
    for (answer, mac) in [
        ("1", "aa"),
        ("2", "bb"),
        ("3", "cc"),
        ("4", "cc"),
        ("99999999999999999999999999", "aa"),
        ("0", "aa"),
        ("", "aa"),
        ("x", "aa"),
        ("+2", "bb"),
        ("18446744073709551615", "cc"),
    ] {
        assert_eq!(pick_relay_hub(&three(), answer), mac);
    }
}

#[test]
fn lights_are_entered() {
    let l = manual_light("Back".into(), "a4:c1", "12");
    assert_eq!((l.key.as_str(), l.mac.as_str(), l.address), ("back", "A4:C1", 12));
    let l = manual_light("?".into(), "", "x");
    assert_eq!((l.key.as_str(), l.name.as_str(), l.address), ("light0", "?", 0));
}

fn asked(w: &Wizard) -> Question {
    match w.stage() {
        Stage::Asking(q) => q,
        Stage::Importing => panic!("importing"),
        Stage::Done => panic!("done"),
    }
}

fn reply(w: &mut Wizard, question: Question, answer: &str) {
    assert_eq!(asked(w), question);
    w.answer(question, answer.into());
}

fn rows() -> Vec<Option<Fixture>> {
    vec![
        Some(Fixture { mac: "aa".into(), address: 2, name: "Key".into() }),
        Some(Fixture { mac: "bb".into(), address: 3, name: "Back".into() }),
    ]
}

#[test]
fn everything_can_be_entered() {
    let mut w = Wizard::start(false);
    reply(&mut w, Question::NetKey, "ab");
    reply(&mut w, Question::AppKey, "cd");
    reply(&mut w, Question::LightName, "Key");
    reply(&mut w, Question::LightMac, "a4:01");
    reply(&mut w, Question::LightAddress, "2");
    reply(&mut w, Question::AnotherLight, "Yes");
    reply(&mut w, Question::LightName, "Back");
    reply(&mut w, Question::LightMac, "a4:02");
    reply(&mut w, Question::LightAddress, "");
    reply(&mut w, Question::AnotherLight, "");
    assert_eq!(w.lights().len(), 2);
    reply(&mut w, Question::RelayHub, "2");
    reply(&mut w, Question::LightKey(0), "");
    reply(&mut w, Question::LightKey(1), "rim");
    assert_eq!(w.stage(), Stage::Done);
    let c = w.into_config();
    assert_eq!((c.net_key.as_str(), c.app_key.as_str()), ("AB", "CD"));
    assert_eq!(c.relay_hub, "A4:02");
    assert_eq!((c.lights[0].key.as_str(), c.lights[0].address), ("key", 2));
    assert_eq!((c.lights[1].key.as_str(), c.lights[1].address), ("rim", 0));
    assert!(c.http.is_none() && c.mqtt.is_none());
}

#[test]
fn lights_can_come_from_the_database() {
    let mut w = Wizard::start(true);
    reply(&mut w, Question::UseDatabase, "");
    assert_eq!(w.stage(), Stage::Importing);
    assert!(w.import("N".into(), "A".into(), &rows()));
    reply(&mut w, Question::RelayHub, "");
    reply(&mut w, Question::LightKey(0), "one");
    reply(&mut w, Question::LightKey(1), "two");
    let c = w.into_config();
    assert_eq!((c.net_key.as_str(), c.app_key.as_str()), ("N", "A"));
    assert_eq!(c.relay_hub, "aa");
    assert_eq!((c.lights[0].key.as_str(), c.lights[1].key.as_str()), ("one", "two"));
}

#[test]
fn the_database_can_fail() {
    let mut w = Wizard::start(true);
    reply(&mut w, Question::UseDatabase, "No");
    assert_eq!(asked(&w), Question::NetKey);
    let mut w = Wizard::start(true);
    reply(&mut w, Question::UseDatabase, "y");
    w.import_failed();
    assert_eq!(asked(&w), Question::NetKey);
    let mut w = Wizard::start(true);
    reply(&mut w, Question::UseDatabase, "y");
    assert!(!w.import("N".into(), "A".into(), &vec![None]));
    assert_eq!(asked(&w), Question::NetKey);
}

#[test]
fn lights_are_renamed() {
    let mut l = light("A", "aa");
    rename_light(&mut l, "".into());
    assert_eq!(l.key, "k");
    rename_light(&mut l, "fill".into());
    assert_eq!(l.key, "fill");
}

#[test]
fn the_hub_has_a_name() {
    let mut c = Config {
        net_key: "N".into(),
        app_key: "A".into(),
        relay_hub: "bb".into(),
        lights: three(),
        http: None,
        mqtt: None,
    };
    assert_eq!(hub_name(&c), "B");
    c.relay_hub = "BB".into();
    assert_eq!(hub_name(&c), "B");
    c.relay_hub = "dd".into();
    assert_eq!(hub_name(&c), "dd");
}
