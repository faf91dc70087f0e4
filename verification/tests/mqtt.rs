use amble::config::{LightConfig, MqttConfig};
use amble::daemon::Request;
use amble::mqtt::{
    broker_host, broker_port, command_topic, credentials, discovery_message, discovery_topic, light_of_topic,
    parse_ha_command, read_message, request_of_message, state_topic, status_topic, unique_id,
    MAX_MIREDS, MIN_MIREDS,
};

fn parts(r: Request) -> (String, Option<String>, Vec<String>) {
    (r.cmd, r.light, r.args)
}

fn expected(cmd: &str, args: &[&str]) -> (String, Option<String>, Vec<String>) {
    (cmd.into(), Some("key".into()), args.iter().map(|a| a.to_string()).collect())
}

#[test]
fn brokers_are_read() {
    assert_eq!(broker_host("mqtt://10.0.0.2:1884"), "10.0.0.2");
    assert_eq!(broker_port("mqtt://10.0.0.2:1884"), 1884);
    assert_eq!(broker_host("mqtt://host"), "host");
    assert_eq!(broker_port("mqtt://host"), 1883);
    assert_eq!(broker_port("mqtt://host:x"), 1883);
    assert_eq!(broker_port("mqtt://host:70000"), 1883);
    assert_eq!(broker_host("host:1884"), "host");
    assert_eq!(broker_port("host:1884"), 1883);
    assert_eq!(broker_host(""), "");
}

#[test]
fn credentials_need_a_user() {
    let cfg = |username: Option<&str>, password: Option<&str>| MqttConfig {
        broker: "b".into(),
        username: username.map(String::from),
        password: password.map(String::from),
        discovery_prefix: "d".into(),
        topic_prefix: "t".into(),
    };
    assert_eq!(credentials(&cfg(None, Some("p"))), None);
    assert_eq!(credentials(&cfg(Some("u"), None)), Some(("u".into(), "".into())));
    assert_eq!(credentials(&cfg(Some("u"), Some("p"))), Some(("u".into(), "p".into())));
}

#[test]
fn topics() {
    assert_eq!(status_topic("amaran"), "amaran/status");
    assert_eq!(command_topic("amaran", "key"), "amaran/key/set");
    assert_eq!(state_topic("amaran", "key"), "amaran/key/state");
    assert_eq!(discovery_topic("homeassistant", "key"), "homeassistant/light/amaran_key/config");
    assert_eq!(unique_id("key"), "amaran_key");
}

#[test]
fn topics_lead_back() {
    assert_eq!(light_of_topic("amaran", &command_topic("amaran", "key")), "key");
    assert_eq!(light_of_topic("a/b", &command_topic("a/b", "c/d")), "c/d");
    assert_eq!(light_of_topic("amaran", "amaran/key/state"), "");
    assert_eq!(light_of_topic("amaran", "other/key/set"), "");
    assert_eq!(light_of_topic("amaran", "amaran/set"), "");
}

#[test]
fn whites_in_mireds() {
    assert_eq!(MIN_MIREDS, (1000000.0f64 / 7500.0).round() as u16);
    assert_eq!(MAX_MIREDS, (1000000.0f64 / 2500.0).round() as u16);
}

#[test]
fn messages_are_read() {
    let m = read_message(
        b"{\"state\":\"on\",\"brightness\":128,\"color_temp\":179.5,\"hs_color\":[240,\"x\",1e2]}",
    )
    .unwrap();
    assert_eq!(m.state, Some("on".to_string()));
    assert_eq!(m.brightness, Some("128".to_string()));
    assert_eq!(m.color_temp, Some("179.5".to_string()));
    assert_eq!(m.hs_color, Some(vec![Some("240".into()), None, Some("100".into())]));
    let m = read_message(b"7").unwrap();
    assert!(m.state.is_none() && m.hs_color.is_none());
    assert!(read_message(b"on").is_none());
}

#[test]
fn off_comes_first() {
    for state in ["off", "OFF", "Off"] {
        let r = parse_ha_command(&Some(state.into()), Some(1), Some(2), Some((3, 4)), "key");
        assert_eq!(parts(r), expected("off", &[]));
    }
    let r = request_of_message(Some("off"), None, None, None, "key");
    assert_eq!(parts(r), expected("on", &[]));
}

#[test]
fn messages_become_commands() {
    let on = Some("on".to_string());
    let r = parse_ha_command(&on, Some(50), Some(5600), Some((3, 4)), "key");
    assert_eq!(parts(r), expected("cct", &["50", "5600", "0"]));
    let r = parse_ha_command(&None, None, Some(3200), None, "key");
    assert_eq!(parts(r), expected("cct", &["80", "3200", "0"]));
    let r = parse_ha_command(&on, Some(50), None, Some((240, 100)), "key");
    assert_eq!(parts(r), expected("hsi", &["50", "240", "100"]));
    let r = parse_ha_command(&None, None, None, Some((0, 0)), "key");
    assert_eq!(parts(r), expected("hsi", &["80", "0", "0"]));
    let r = parse_ha_command(&on, Some(0), None, None, "key");
    assert_eq!(parts(r), expected("brightness", &["0"]));
    let r = parse_ha_command(&on, None, None, None, "key");
    assert_eq!(parts(r), expected("on", &[]));
    let r = parse_ha_command(&None, None, None, None, "key");
    assert_eq!(parts(r), expected("on", &[]));
}

#[test]
fn lights_are_announced() {
    let light = LightConfig {
        key: "key".into(),
        name: "Key \"L\"".into(),
        mac: "A4".into(),
        address: 2,
    };
    assert_eq!(
        discovery_message(&light, "amaran"),
        "{\"availability_topic\":\"amaran/status\",\"brightness_scale\":255,\
         \"command_topic\":\"amaran/key/set\",\
         \"device\":{\"identifiers\":[\"amaran_key\"],\"manufacturer\":\"Aputure\",\
         \"model\":\"Amaran Light\",\"name\":\"Key \\\"L\\\"\"},\
         \"max_mireds\":400,\"min_mireds\":133,\"name\":\"Key \\\"L\\\"\",\
         \"schema\":\"json\",\"state_topic\":\"amaran/key/state\",\
         \"supported_color_modes\":[\"color_temp\",\"hs\"],\"unique_id\":\"amaran_key\"}"
    );
}
