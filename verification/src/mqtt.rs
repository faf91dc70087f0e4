//! The MQTT interface: the broker, the topics, and the commands that messages stand for.

use crate::config::{opt_text, LightConfig, LightView, MqttConfig};
use crate::daemon::{command_at, Command, CommandErrorView, Request, RequestView};
use crate::json::{
    distinct_keys, entry_views, field_views, holds_fields, json_members, json_object, list_at, member_views,
    number_at, number_member, numbers_member, read_object, scalar_field, text_at, text_field,
    text_member, text_value, write_object, Field, FieldValue, FieldValueView, Member, MemberView,
    Scalar, ScalarView,
};
use crate::text::{
    decimal, decimal_text, join_three, join_two, law_split_first, law_split_whole,
    law_unsigned_reads_back, parse_u16, same_text, split, split_on, strip_prefix, strip_suffix,
    texts, unsigned_value, uppercase,
};
use vstd::prelude::*;
use vstd::string::StringExecFns;
use vstd::utf8::encode_utf8;

verus! {

/// The name that the daemon connects under.
pub const CLIENT_ID: &'static str = "amaran-daemon";

/// How often the broker hears of the daemon, in seconds.
pub const KEEP_ALIVE_SECS: u64 = 30;

/// How many messages may wait to be sent.
pub const QUEUE_LEN: usize = 100;

/// The coldest white of the lights: 7500 kelvin, in mireds.
pub const MIN_MIREDS: u16 = 133;

/// The warmest white of the lights: 2500 kelvin, in mireds.
pub const MAX_MIREDS: u16 = 400;

/// The brightness that a colour has where a message gives none, in percent.
pub const DEFAULT_BRIGHTNESS: u8 = 80;

/// The port in a broker address: what follows the second colon, where that is a port.
pub open spec fn port_of(broker: Seq<char>) -> u16 {
    let parts = split_on(broker, ':');
    if parts.len() > 2 {
        match unsigned_value(parts[2], 65535) {
            Some(n) => n as u16,
            None => 1883,
        }
    } else {
        1883
    }
}

/// The host in a broker address: what stands before the next colon behind an optional scheme.
pub open spec fn host_of(broker: Seq<char>) -> Seq<char> {
    if "mqtt://"@.is_prefix_of(broker) {
        split_on(broker.skip("mqtt://"@.len() as int), ':')[0]
    } else {
        split_on(broker, ':')[0]
    }
}

/// The port in a broker address.
pub fn broker_port(broker: &str) -> (r: u16)
    ensures
        r == port_of(broker@),
{
    let parts = split(broker, ':');
    let ghost all = texts(parts@);
    if parts.len() > 2 {
        assert(all[2] == parts@[2]@);
        match parse_u16(parts[2].as_str()) {
            Some(n) => n,
            None => 1883,
        }
    } else {
        1883
    }
}

fn before_colon(s: &str) -> (r: String)
    ensures
        r@ == split_on(s@, ':')[0],
{
    let mut parts = split(s, ':');
    let ghost all = texts(parts@);
    let first = parts.remove(0);
    assert(all[0] == first@);
    first
}

/// The host in a broker address.
pub fn broker_host(broker: &str) -> (r: String)
    ensures
        r@ == host_of(broker@),
{
    match strip_prefix(broker, "mqtt://") {
        Some(rest) => {
            assert(broker@.skip("mqtt://"@.len() as int) =~= rest@);
            before_colon(rest.as_str())
        },
        None => before_colon(broker),
    }
}

/// The user name and the password that the broker is shown, where there is a user name.
pub fn credentials(cfg: &MqttConfig) -> (r: Option<(String, String)>)
    ensures
        r is Some <==> cfg.username is Some,
        r matches Some((user, password)) ==> {
            &&& user@ == cfg.username->0@
            &&& password@ == match cfg.password {
                Some(p) => p@,
                None => ""@,
            }
        },
{
    match &cfg.username {
        Some(user) => {
            let password = match &cfg.password {
                Some(p) => p.clone(),
                None => "".to_owned(),
            };
            Some((user.clone(), password))
        },
        None => None,
    }
}

/// The topic that tells whether the daemon is there.
pub fn status_topic(topic_prefix: &str) -> (r: String)
    ensures
        r@ == topic_prefix@ + "/status"@,
{
    join_two(topic_prefix, "/status")
}

/// The topic of the commands for a light.
pub open spec fn command_topic_of(topic_prefix: Seq<char>, key: Seq<char>) -> Seq<char> {
    topic_prefix + "/"@ + key + "/set"@
}

/// The topic of the commands for a light.
pub fn command_topic(topic_prefix: &str, key: &str) -> (r: String)
    ensures
        r@ == command_topic_of(topic_prefix@, key@),
{
    let mut r = join_three(topic_prefix, "/", key);
    r.append("/set");
    r
}

/// The topic of the state of a light.
pub fn state_topic(topic_prefix: &str, key: &str) -> (r: String)
    ensures
        r@ == topic_prefix@ + "/"@ + key@ + "/state"@,
{
    let mut r = join_three(topic_prefix, "/", key);
    r.append("/state");
    r
}

/// The identifier that a light is announced under.
pub fn unique_id(key: &str) -> (r: String)
    ensures
        r@ == "amaran_"@ + key@,
{
    join_two("amaran_", key)
}

/// The topic that a light is announced on.
pub fn discovery_topic(discovery_prefix: &str, key: &str) -> (r: String)
    ensures
        r@ == discovery_prefix@ + "/light/amaran_"@ + key@ + "/config"@,
{
    let mut r = join_three(discovery_prefix, "/light/amaran_", key);
    r.append("/config");
    r
}

/// The members of the announcement of a light.
pub open spec fn discovery_fields(light: LightView, topic_prefix: Seq<char>) -> Seq<
    (Seq<char>, FieldValueView),
> {
    let id = "amaran_"@ + light.key;
    seq![
        ("name"@, text_value(light.name)),
        ("unique_id"@, text_value(id)),
        ("schema"@, text_value("json"@)),
        ("command_topic"@, text_value(command_topic_of(topic_prefix, light.key))),
        ("state_topic"@, text_value(topic_prefix + "/"@ + light.key + "/state"@)),
        ("availability_topic"@, text_value(topic_prefix + "/status"@)),
        (
            "supported_color_modes"@,
            FieldValueView::One(ScalarView::List(seq!["color_temp"@, "hs"@])),
        ),
        ("brightness_scale"@, FieldValueView::One(ScalarView::Number(255))),
        ("min_mireds"@, FieldValueView::One(ScalarView::Number(MIN_MIREDS as u64))),
        ("max_mireds"@, FieldValueView::One(ScalarView::Number(MAX_MIREDS as u64))),
        (
            "device"@,
            FieldValueView::Object(
                seq![
                    ("identifiers"@, ScalarView::List(seq![id])),
                    ("name"@, ScalarView::Text(Some(light.name))),
                    ("model"@, ScalarView::Text(Some("Amaran Light"@))),
                    ("manufacturer"@, ScalarView::Text(Some("Aputure"@))),
                ],
            ),
        ),
    ]
}

fn device_value(light: &LightConfig) -> (r: FieldValue)
    ensures
        r@ == FieldValueView::Object(
            seq![
                ("identifiers"@, ScalarView::List(seq!["amaran_"@ + light.key@])),
                ("name"@, ScalarView::Text(Some(light.name@))),
                ("model"@, ScalarView::Text(Some("Amaran Light"@))),
                ("manufacturer"@, ScalarView::Text(Some("Aputure"@))),
            ],
        ),
{
    let mut ids: Vec<String> = Vec::new();
    ids.push(unique_id(light.key.as_str()));
    assert(texts(ids@) =~= seq!["amaran_"@ + light.key@]);
    let mut o: Vec<(String, Scalar)> = Vec::new();
    o.push(("identifiers".to_owned(), Scalar::List(ids)));
    o.push(("name".to_owned(), Scalar::Text(Some(light.name.clone()))));
    o.push(("model".to_owned(), Scalar::Text(Some("Amaran Light".to_owned()))));
    o.push(("manufacturer".to_owned(), Scalar::Text(Some("Aputure".to_owned()))));
    let r = FieldValue::Object(o);
    assert(entry_views(o@) =~= seq![
        ("identifiers"@, ScalarView::List(seq!["amaran_"@ + light.key@])),
        ("name"@, ScalarView::Text(Some(light.name@))),
        ("model"@, ScalarView::Text(Some("Amaran Light"@))),
        ("manufacturer"@, ScalarView::Text(Some("Aputure"@))),
    ]);
    r
}

/// The announcement of a light.
pub fn discovery_message(light: &LightConfig, topic_prefix: &str) -> (r: String)
    ensures
        r@ == json_object(discovery_fields(light@, topic_prefix@)),
        holds_fields(json_members(encode_utf8(r@)), discovery_fields(light@, topic_prefix@)),
{
    let key = light.key.as_str();
    let mut modes: Vec<String> = Vec::new();
    modes.push("color_temp".to_owned());
    modes.push("hs".to_owned());
    assert(texts(modes@) =~= seq!["color_temp"@, "hs"@]);
    let mut fields: Vec<Field> = Vec::new();
    fields.push(text_field("name", light.name.clone()));
    fields.push(text_field("unique_id", unique_id(key)));
    fields.push(text_field("schema", "json".to_owned()));
    fields.push(text_field("command_topic", command_topic(topic_prefix, key)));
    fields.push(text_field("state_topic", state_topic(topic_prefix, key)));
    fields.push(text_field("availability_topic", status_topic(topic_prefix)));
    fields.push(scalar_field("supported_color_modes", Scalar::List(modes)));
    fields.push(scalar_field("brightness_scale", Scalar::Number(255)));
    fields.push(scalar_field("min_mireds", Scalar::Number(MIN_MIREDS as u64)));
    fields.push(scalar_field("max_mireds", Scalar::Number(MAX_MIREDS as u64)));
    fields.push(Field { key: "device".to_owned(), value: device_value(light) });
    proof {
        let wanted = discovery_fields(light@, topic_prefix@);
        assert(field_views(fields@) =~= wanted);
        lemma_discovery_keys(light@, topic_prefix@);
    }
    write_object(&fields)
}

proof fn lemma_discovery_keys(light: LightView, topic_prefix: Seq<char>)
    ensures
        distinct_keys(discovery_fields(light, topic_prefix)),
{
    reveal_strlit("name");
    reveal_strlit("unique_id");
    reveal_strlit("schema");
    reveal_strlit("command_topic");
    reveal_strlit("state_topic");
    reveal_strlit("availability_topic");
    reveal_strlit("supported_color_modes");
    reveal_strlit("brightness_scale");
    reveal_strlit("min_mireds");
    reveal_strlit("max_mireds");
    reveal_strlit("device");
    let f = discovery_fields(light, topic_prefix);
    assert(f[0].0.len() == 4 && f[1].0.len() == 9 && f[2].0.len() == 6 && f[3].0.len() == 13);
    assert(f[4].0.len() == 11 && f[5].0.len() == 18 && f[6].0.len() == 21 && f[7].0.len() == 16);
    assert(f[8].0.len() == 10 && f[9].0.len() == 10 && f[10].0.len() == 6);
    assert(f[8].0[1] == 'i' && f[9].0[1] == 'a');
    assert(f[2].0[0] == 's' && f[10].0[0] == 'd');
}

/// The light that a command topic is for, or nothing where it is no command topic.
pub open spec fn topic_key(topic_prefix: Seq<char>, topic: Seq<char>) -> Seq<char> {
    let head = topic_prefix + "/"@;
    let rest = topic.skip(head.len() as int);
    if head.is_prefix_of(topic) && "/set"@.is_suffix_of(rest) {
        rest.take(rest.len() - "/set"@.len())
    } else {
        ""@
    }
}

/// The light that a command topic is for.
pub fn light_of_topic(topic_prefix: &str, topic: &str) -> (r: String)
    ensures
        r@ == topic_key(topic_prefix@, topic@),
{
    let head = join_two(topic_prefix, "/");
    if let Some(rest) = strip_prefix(topic, head.as_str()) {
        assert(topic@.skip(head@.len() as int) =~= rest@);
        if let Some(key) = strip_suffix(rest.as_str(), "/set") {
            assert(rest@.take(rest@.len() - "/set"@.len()) =~= key@);
            return key;
        }
    }
    "".to_owned()
}

/// What a message says: the state, and the brightness, the colour temperature and the elements
/// of the colour as texts of numbers.
pub struct HaFields {
    pub state: Option<String>,
    pub brightness: Option<String>,
    pub color_temp: Option<String>,
    pub hs_color: Option<Vec<Option<String>>>,
}

/// Whether `fields` is what the members of a message say.
pub open spec fn says(fields: HaFields, members: Seq<MemberView>) -> bool {
    &&& opt_text(fields.state) == text_at(members, "state"@)
    &&& opt_text(fields.brightness) == number_at(members, "brightness"@)
    &&& opt_text(fields.color_temp) == number_at(members, "color_temp"@)
    &&& match (fields.hs_color, list_at(members, "hs_color"@)) {
        (Some(v), Some(items)) => {
            &&& v@.len() == items.len()
            &&& forall|i: int|
                0 <= i < items.len() ==> opt_text(#[trigger] v@[i]) == items[i].number
        },
        (None, None) => true,
        _ => false,
    }
}

/// Reads what the members of a message say.
pub fn ha_fields(members: &Vec<Member>) -> (r: HaFields)
    ensures
        says(r, member_views(members@)),
{
    HaFields {
        state: text_member(members, "state"),
        brightness: number_member(members, "brightness"),
        color_temp: number_member(members, "color_temp"),
        hs_color: numbers_member(members, "hs_color"),
    }
}

/// Reads what a message says: nothing where it is no JSON.
pub fn read_message(message: &[u8]) -> (r: Option<HaFields>)
    ensures
        r is Some <==> json_members(message@) is Some,
        r matches Some(fields) ==> says(fields, json_members(message@)->0),
{
    match read_object(message) {
        Some(members) => Some(ha_fields(&members)),
        None => None,
    }
}

/// The brightness of a message, or the default.
pub open spec fn brightness_or_default(brightness: Option<u8>) -> u8 {
    match brightness {
        Some(b) => b,
        None => DEFAULT_BRIGHTNESS,
    }
}

/// The request that a message for a light stands for. Turning off comes before everything else,
/// then a colour temperature, then a colour, then a brightness; what is left turns the light on.
pub open spec fn ha_request(
    upper_state: Option<Seq<char>>,
    brightness: Option<u8>,
    kelvin: Option<u16>,
    hs: Option<(u16, u16)>,
    key: Seq<char>,
) -> RequestView {
    let b = decimal_text(brightness_or_default(brightness) as nat);
    let (cmd, args) = if upper_state == Some("OFF"@) {
        ("off"@, Seq::<Seq<char>>::empty())
    } else if kelvin is Some {
        ("cct"@, seq![b, decimal_text(kelvin->0 as nat), "0"@])
    } else if hs is Some {
        ("hsi"@, seq![b, decimal_text((hs->0).0 as nat), decimal_text((hs->0).1 as nat)])
    } else if brightness is Some {
        ("brightness"@, seq![b])
    } else {
        ("on"@, Seq::empty())
    };
    RequestView { cmd, light: Some(key), args }
}

/// The request that a message for a light stands for, given its state in upper case, its
/// brightness in percent, its colour temperature in kelvin and its hue and saturation.
pub fn request_of_message(
    upper_state: Option<&str>,
    brightness: Option<u8>,
    kelvin: Option<u16>,
    hs: Option<(u16, u16)>,
    light_key: &str,
) -> (r: Request)
    ensures
        r@ == ha_request(
            match upper_state {
                Some(s) => Some(s@),
                None => None,
            },
            brightness,
            kelvin,
            hs,
            light_key@,
        ),
{
    let light = Some(light_key.to_owned());
    let mut args: Vec<String> = Vec::new();
    if let Some(s) = upper_state {
        if same_text(s, "OFF") {
            assert(texts(args@) =~= Seq::<Seq<char>>::empty());
            return Request { cmd: "off".to_owned(), light, args };
        }
    }
    let b: u8 = match brightness {
        Some(b) => b,
        None => DEFAULT_BRIGHTNESS,
    };
    let ghost b_text = decimal_text(b as nat);
    if let Some(k) = kelvin {
        args.push(decimal(b as u64));
        args.push(decimal(k as u64));
        args.push("0".to_owned());
        assert(texts(args@) =~= seq![b_text, decimal_text(k as nat), "0"@]);
        return Request { cmd: "cct".to_owned(), light, args };
    }
    if let Some((h, s)) = hs {
        args.push(decimal(b as u64));
        args.push(decimal(h as u64));
        args.push(decimal(s as u64));
        assert(texts(args@) =~= seq![b_text, decimal_text(h as nat), decimal_text(s as nat)]);
        return Request { cmd: "hsi".to_owned(), light, args };
    }
    if brightness.is_some() {
        args.push(decimal(b as u64));
        assert(texts(args@) =~= seq![b_text]);
        return Request { cmd: "brightness".to_owned(), light, args };
    }
    assert(texts(args@) =~= Seq::<Seq<char>>::empty());
    Request { cmd: "on".to_owned(), light, args }
}

/// The request that a message for a light stands for, given its state, its brightness in percent,
/// its colour temperature in kelvin and its hue and saturation.
pub fn parse_ha_command(
    state: &Option<String>,
    brightness: Option<u8>,
    kelvin: Option<u16>,
    hs: Option<(u16, u16)>,
    light_key: &str,
) -> (r: Request)
    ensures
        r@ == ha_request(
            match *state {
                Some(s) => Some(uppercase(s@)),
                None => None,
            },
            brightness,
            kelvin,
            hs,
            light_key@,
        ),
{
    match state {
        Some(s) => {
            let upper = s.as_str().to_uppercase();
            request_of_message(Some(upper.as_str()), brightness, kelvin, hs, light_key)
        },
        None => request_of_message(None, brightness, kelvin, hs, light_key),
    }
}

/// A command topic leads back to the light that it is for, whatever its key and the prefix.
pub proof fn law_topic_leads_back(topic_prefix: Seq<char>, key: Seq<char>)
    ensures
        topic_key(topic_prefix, command_topic_of(topic_prefix, key)) == key,
{
    let topic = command_topic_of(topic_prefix, key);
    let head = topic_prefix + "/"@;
    let rest = topic.skip(head.len() as int);
    assert(rest =~= key + "/set"@);
    assert(head.is_prefix_of(topic)) by {
        assert(topic.take(head.len() as int) =~= head);
    }
    assert("/set"@.is_suffix_of(rest));
    assert(rest.take(rest.len() - "/set"@.len()) =~= key);
}

/// A message that turns a light off does so whatever else it says.
pub proof fn law_off_wins(
    brightness: Option<u8>,
    kelvin: Option<u16>,
    hs: Option<(u16, u16)>,
    key: Seq<char>,
    address: u16,
)
    ensures
        ({
            let req = ha_request(Some("OFF"@), brightness, kelvin, hs, key);
            command_at(address, req.cmd, req.args) == Ok::<Command, CommandErrorView>(
                Command::OnOff { address, on: false },
            )
        }),
{
    reveal_strlit("on");
    reveal_strlit("off");
    assert("on"@.len() == 2 && "off"@.len() == 3);
}

/// What the request of a message that does not turn the light off comes to: the values of the
/// message.
pub open spec fn ha_command(
    address: u16,
    brightness: Option<u8>,
    kelvin: Option<u16>,
    hs: Option<(u16, u16)>,
) -> Command {
    let percent = brightness_or_default(brightness);
    if kelvin is Some {
        Command::Cct { address, percent, kelvin: kelvin->0, gm: 0 }
    } else if hs is Some {
        Command::Hsi { address, percent, hue: (hs->0).0, saturation: (hs->0).1 }
    } else if brightness is Some {
        Command::Brightness { address, percent }
    } else {
        Command::OnOff { address, on: true }
    }
}

/// Every message stands for a command that is carried out, with the values of the message.
pub proof fn law_messages_are_commands(
    upper_state: Option<Seq<char>>,
    brightness: Option<u8>,
    kelvin: Option<u16>,
    hs: Option<(u16, u16)>,
    key: Seq<char>,
    address: u16,
)
    requires
        upper_state != Some("OFF"@),
    ensures
        ({
            let req = ha_request(upper_state, brightness, kelvin, hs, key);
            command_at(address, req.cmd, req.args) == Ok::<Command, CommandErrorView>(
                ha_command(address, brightness, kelvin, hs),
            )
        }),
{
    reveal_strlit("on");
    reveal_strlit("off");
    reveal_strlit("brightness");
    reveal_strlit("cct");
    reveal_strlit("hsi");
    reveal_strlit("0");
    assert("brightness"@.len() == 10 && "cct"@.len() == 3 && "hsi"@.len() == 3);
    assert("on"@.len() == 2 && "off"@.len() == 3);
    assert("cct"@[0] == 'c' && "hsi"@[0] == 'h' && "off"@[0] == 'o');
    law_unsigned_reads_back(brightness_or_default(brightness) as nat, 255);
    if kelvin is Some {
        law_unsigned_reads_back(kelvin->0 as nat, 65535);
        law_unsigned_reads_back(0, 127);
        assert("0"@ =~= decimal_text(0));
    }
    if hs is Some {
        law_unsigned_reads_back((hs->0).0 as nat, 65535);
        law_unsigned_reads_back((hs->0).1 as nat, 65535);
    }
}

/// A broker address with a scheme, a host and a port is taken apart into these; a port that is no
/// number of at most 65535, or is missing, is 1883.
pub proof fn law_brokers(host: Seq<char>, port: Seq<char>, n: u16)
    requires
        !host.contains(':'),
        !port.contains(':'),
    ensures
        host_of("mqtt://"@ + host) == host,
        host_of("mqtt://"@ + (host + seq![':'] + port)) == host,
        !"mqtt://"@.is_prefix_of(host) ==> host_of(host) == host,
        !"mqtt://"@.is_prefix_of(host + seq![':'] + port) ==> host_of(host + seq![':'] + port)
            == host,
        port_of(host) == 1883,
        port_of(host + seq![':'] + port) == 1883,
        port_of("mqtt://"@ + host) == 1883,
        unsigned_value(port, 65535) is None ==> port_of(
            "mqtt://"@ + (host + seq![':'] + port),
        ) == 1883,
        unsigned_value(port, 65535) == Some(n as nat) ==> port_of(
            "mqtt://"@ + (host + seq![':'] + port),
        ) == n,
{
    reveal_strlit("mqtt://");
    let scheme = "mqtt"@;
    reveal_strlit("mqtt");
    let base = "mqtt://"@;
    let full = host + seq![':'] + port;
    assert((base + host).skip(base.len() as int) =~= host);
    assert((base + full).skip(base.len() as int) =~= full);
    assert(base.is_prefix_of(base + host)) by {
        assert((base + host).take(base.len() as int) =~= base);
    }
    assert(base.is_prefix_of(base + full)) by {
        assert((base + full).take(base.len() as int) =~= base);
    }
    law_split_whole(host, ':');
    law_split_whole(port, ':');
    law_split_first(host, ':', port);
    assert(split_on(full, ':') =~= seq![host, port]);
    let slashes = seq!['/', '/'];
    assert(!scheme.contains(':'));
    let h2 = slashes + host;
    assert(!h2.contains(':')) by {
        assert forall|i: int| 0 <= i < h2.len() implies h2[i] != ':' by {
            if i >= 2 {
                assert(h2[i] == host[i - 2]);
            }
        }
    }
    assert(base + host =~= scheme + seq![':'] + h2);
    assert(base + full =~= scheme + seq![':'] + (h2 + seq![':'] + port));
    law_split_whole(h2, ':');
    law_split_first(h2, ':', port);
    law_split_first(scheme, ':', h2);
    law_split_first(scheme, ':', h2 + seq![':'] + port);
    assert(split_on(base + full, ':') =~= seq![scheme, h2, port]);
    assert(split_on(base + host, ':') =~= seq![scheme, h2]);
}

/// The topics of a light, and what is no command topic.
pub proof fn law_topics(topic_prefix: Seq<char>, key: Seq<char>, topic: Seq<char>)
    ensures
        command_topic_of(topic_prefix, key) == topic_prefix + "/"@ + key + "/set"@,
        (forall|k: Seq<char>| topic != #[trigger] command_topic_of(topic_prefix, k)) ==> topic_key(
            topic_prefix,
            topic,
        ) == ""@,
{
    let head = topic_prefix + "/"@;
    let rest = topic.skip(head.len() as int);
    if head.is_prefix_of(topic) && "/set"@.is_suffix_of(rest) {
        let k = rest.take(rest.len() - "/set"@.len());
        assert(topic =~= command_topic_of(topic_prefix, k)) by {
            assert(topic =~= head + rest);
            assert(rest =~= k + "/set"@);
        }
    }
}

/// A message is for the light of its topic, whatever it says, and without a brightness a colour
/// has 80 percent.
pub proof fn law_messages_are_for_their_light(
    upper_state: Option<Seq<char>>,
    brightness: Option<u8>,
    kelvin: Option<u16>,
    hs: Option<(u16, u16)>,
    key: Seq<char>,
    b: u8,
)
    ensures
        ha_request(upper_state, brightness, kelvin, hs, key).light == Some(key),
        brightness_or_default(Some(b)) == b,
        brightness_or_default(None) == 80,
{
}

/// What a message that does not turn a light off comes to: a white of its colour temperature
/// before a colour, a colour before a brightness alone, and otherwise the light is turned on.
pub proof fn law_message_order(
    upper_state: Option<Seq<char>>,
    brightness: Option<u8>,
    kelvin: u16,
    hue: u16,
    saturation: u16,
    hs: Option<(u16, u16)>,
    percent: u8,
    key: Seq<char>,
    address: u16,
)
    requires
        upper_state != Some("OFF"@),
        brightness matches Some(n) ==> n == percent,
        brightness is None ==> percent == 80,
    ensures
        ({
            let said = |req: RequestView| command_at(address, req.cmd, req.args);
            &&& said(ha_request(upper_state, brightness, Some(kelvin), hs, key)) == Ok::<
                Command,
                CommandErrorView,
            >(Command::Cct { address, percent, kelvin, gm: 0 })
            &&& said(
                ha_request(upper_state, brightness, None, Some((hue, saturation)), key),
            ) == Ok::<Command, CommandErrorView>(
                Command::Hsi { address, percent, hue, saturation },
            )
            &&& said(ha_request(upper_state, Some(percent), None, None, key)) == Ok::<
                Command,
                CommandErrorView,
            >(Command::Brightness { address, percent })
            &&& said(ha_request(upper_state, None, None, None, key)) == Ok::<
                Command,
                CommandErrorView,
            >(Command::OnOff { address, on: true })
        }),
{
    law_messages_are_commands(upper_state, brightness, Some(kelvin), hs, key, address);
    law_messages_are_commands(
        upper_state,
        brightness,
        None,
        Some((hue, saturation)),
        key,
        address,
    );
    law_messages_are_commands(upper_state, Some(percent), None, None, key, address);
    law_messages_are_commands(upper_state, None, None, None, key, address);
}

/// What a light is announced as.
pub proof fn law_announcements(light: LightView, topic_prefix: Seq<char>)
    ensures
        ({
            let f = discovery_fields(light, topic_prefix);
            let id = "amaran_"@ + light.key;
            let text = |t: Seq<char>| FieldValueView::One(ScalarView::Text(Some(t)));
            &&& f.len() == 11
            &&& f.contains(("name"@, text(light.name)))
            &&& f.contains(("unique_id"@, text(id)))
            &&& f.contains(("schema"@, text("json"@)))
            &&& f.contains(
                ("command_topic"@, text(topic_prefix + "/"@ + light.key + "/set"@)),
            )
            &&& f.contains(
                ("state_topic"@, text(topic_prefix + "/"@ + light.key + "/state"@)),
            )
            &&& f.contains(("availability_topic"@, text(topic_prefix + "/status"@)))
            &&& f.contains(
                (
                    "supported_color_modes"@,
                    FieldValueView::One(ScalarView::List(seq!["color_temp"@, "hs"@])),
                ),
            )
            &&& f.contains(
                ("brightness_scale"@, FieldValueView::One(ScalarView::Number(255))),
            )
            &&& f.contains(("min_mireds"@, FieldValueView::One(ScalarView::Number(133))))
            &&& f.contains(("max_mireds"@, FieldValueView::One(ScalarView::Number(400))))
            &&& f.contains(
                (
                    "device"@,
                    FieldValueView::Object(
                        seq![
                            ("identifiers"@, ScalarView::List(seq![id])),
                            ("name"@, ScalarView::Text(Some(light.name))),
                            ("model"@, ScalarView::Text(Some("Amaran Light"@))),
                            ("manufacturer"@, ScalarView::Text(Some("Aputure"@))),
                        ],
                    ),
                ),
            )
        }),
{
    let f = discovery_fields(light, topic_prefix);
    // Naming the elements shows where each member stands.
    assert(f[0] == f[0] && f[1] == f[1] && f[2] == f[2] && f[3] == f[3] && f[4] == f[4]);
    assert(f[5] == f[5] && f[6] == f[6] && f[7] == f[7] && f[8] == f[8] && f[9] == f[9]);
    assert(f[10] == f[10]);
}

/// How the broker is connected to.
pub proof fn law_connection()
    ensures
        CLIENT_ID@ == "amaran-daemon"@,
        KEEP_ALIVE_SECS == 30,
        QUEUE_LEN == 100,
{
}

/// Where each thing that a message says stands in it, and that what is missing there is missing.
pub proof fn law_sayings(fields: HaFields, members: Seq<MemberView>)
    requires
        says(fields, members),
    ensures
        opt_text(fields.state) == text_at(members, "state"@),
        opt_text(fields.brightness) == number_at(members, "brightness"@),
        opt_text(fields.color_temp) == number_at(members, "color_temp"@),
        fields.hs_color is Some <==> list_at(members, "hs_color"@) is Some,
        fields.hs_color is Some ==> {
            &&& fields.hs_color->0@.len() == list_at(members, "hs_color"@)->0.len()
            &&& forall|i: int|
                0 <= i < fields.hs_color->0@.len() ==> opt_text(#[trigger] fields.hs_color->0@[i])
                    == list_at(members, "hs_color"@)->0[i].number
        },
{
}

/// The port is what stands between the second colon and the third, if there is one, whatever
/// stands around it; the host ends at its first colon, whatever follows.
pub proof fn law_colons_of_brokers(
    a: Seq<char>,
    b: Seq<char>,
    port: Seq<char>,
    more: Seq<char>,
    n: u16,
)
    requires
        !a.contains(':'),
        !b.contains(':'),
        !port.contains(':'),
    ensures
        ({
            let short = a + seq![':'] + (b + seq![':'] + port);
            let long = a + seq![':'] + (b + seq![':'] + (port + seq![':'] + more));
            &&& unsigned_value(port, 65535) == Some(n as nat) ==> port_of(short) == n && port_of(long)
                == n
            &&& unsigned_value(port, 65535) is None ==> port_of(short) == 1883 && port_of(long)
                == 1883
        }),
        host_of("mqtt://"@ + (a + seq![':'] + more)) == a,
        !"mqtt://"@.is_prefix_of(a + seq![':'] + more) ==> host_of(a + seq![':'] + more) == a,
{
    law_split_whole(port, ':');
    law_split_first(port, ':', more);
    law_split_first(b, ':', port);
    law_split_first(b, ':', port + seq![':'] + more);
    law_split_first(a, ':', b + seq![':'] + port);
    law_split_first(a, ':', b + seq![':'] + (port + seq![':'] + more));
    law_split_first(a, ':', more);
    let base = "mqtt://"@;
    let rest = a + seq![':'] + more;
    assert((base + rest).skip(base.len() as int) =~= rest);
    assert(base.is_prefix_of(base + rest)) by {
        assert((base + rest).take(base.len() as int) =~= base);
    }
}

} // verus!
