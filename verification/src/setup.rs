//! The setup: lights and keys from the desktop application's database or from answers.

use crate::config::{light_views, Config, LightConfig, LightView};
use crate::text::{
    chars_of, decimal, decimal_text, join_two, law_trimming, lowercase, parse_u16, parse_unsigned,
    text_of, trim, trimmed, unsigned_value, uppercase, white_space,
};
use vstd::prelude::*;

verus! {

/// Whether `c` is an ASCII letter or digit.
pub open spec fn alphanumeric(c: char) -> bool {
    '0' <= c <= '9' || 'A' <= c <= 'Z' || 'a' <= c <= 'z'
}

/// The letters and digits of a name.
pub open spec fn letters(name: Seq<char>) -> Seq<char> {
    name.filter(|c: char| alphanumeric(c))
}

/// At most the first eight characters of a text.
pub open spec fn first_eight(s: Seq<char>) -> Seq<char> {
    if s.len() <= 8 {
        s
    } else {
        s.take(8)
    }
}

/// The key of a light whose name in lower case is `lower`: the first eight letters and digits of
/// it, or its address where there are none.
pub open spec fn key_of(lower: Seq<char>, address: u16) -> Seq<char> {
    let short = first_eight(letters(lower));
    if short.len() == 0 {
        "light"@ + decimal_text(address as nat)
    } else {
        short
    }
}

/// The key of a light whose name in lower case is `lower`.
pub fn short_key(lower: &str, address: u16) -> (r: String)
    ensures
        r@ == key_of(lower@, address),
{
    let chars = chars_of(lower);
    let mut short: Vec<char> = Vec::new();
    let mut i: usize = 0;
    proof {
        reveal(Seq::filter);
        assert(chars@.take(0) =~= Seq::<char>::empty());
    }
    while i < chars.len()
        invariant
            i <= chars@.len(),
            chars@ == lower@,
            short@ == first_eight(letters(chars@.take(i as int))),
        decreases chars@.len() - i,
    {
        let c: char = chars[i];
        proof {
            reveal(Seq::filter);
            assert(chars@.take(i + 1).drop_last() =~= chars@.take(i as int));
            assert(chars@.take(i + 1).last() == c);
        }
        let ghost before = letters(chars@.take(i as int));
        let keep: bool = (c >= '0' && c <= '9') || (c >= 'A' && c <= 'Z') || (c >= 'a' && c <= 'z');
        if keep && short.len() < 8 {
            short.push(c);
        }
        proof {
            let now = letters(chars@.take(i + 1));
            if keep {
                assert(now == before.push(c));
                if before.len() >= 8 {
                    assert(now.take(8) =~= before.take(8));
                    assert(before.len() == 8 ==> before.take(8) =~= before);
                } else {
                    assert(first_eight(now) =~= before.push(c));
                }
            }
            assert(short@ =~= first_eight(now));
        }
        i = i + 1;
    }
    assert(chars@.take(i as int) =~= lower@);
    if short.len() == 0 {
        join_two("light", decimal(address as u64).as_str())
    } else {
        text_of(short.as_slice())
    }
}

/// The key of a light.
pub fn light_key(name: &str, address: u16) -> (r: String)
    ensures
        r@ == key_of(lowercase(name@), address),
{
    short_key(name.to_lowercase().as_str(), address)
}

/// A row of the table of fixtures.
pub struct Fixture {
    pub mac: String,
    pub address: i64,
    pub name: String,
}

/// The lowest sixteen bits of an address.
pub open spec fn low_address(address: i64) -> u16 {
    (address as int % 0x1_0000) as u16
}

/// The light of a row.
pub open spec fn fixture_light(row: Fixture) -> LightView {
    LightView {
        key: key_of(lowercase(trimmed(row.name@)), low_address(row.address)),
        name: trimmed(row.name@),
        mac: trimmed(row.mac@),
        address: low_address(row.address),
    }
}

/// The lights of the rows: those that could be read and whose address is at least two.
pub open spec fn imported(rows: Seq<Option<Fixture>>) -> Seq<LightView>
    decreases rows.len(),
{
    if rows.len() == 0 {
        Seq::empty()
    } else {
        let front = imported(rows.drop_last());
        match rows.last() {
            Some(row) => if low_address(row.address) >= 2 {
                front.push(fixture_light(row))
            } else {
                front
            },
            None => front,
        }
    }
}

fn truncate_address(address: i64) -> (r: u16)
    ensures
        r == low_address(address),
{
    let r: u16 = #[verifier::truncate] (address as u16);
    assert(r == if address >= 0 {
        address as u64 % 0x1_0000
    } else {
        ((0x1_0000_0000_0000_0000 + address) as u64) % 0x1_0000
    }) by (bit_vector)
        requires
            r == address as u16,
    ;
    r
}

/// Takes the lights over from the rows of the table of fixtures, in their order. A row that could
/// not be read is nothing.
pub fn import_lights(rows: &Vec<Option<Fixture>>) -> (r: Vec<LightConfig>)
    ensures
        light_views(r@) == imported(rows@),
{
    let mut r: Vec<LightConfig> = Vec::new();
    let mut i: usize = 0;
    assert(rows@.take(0) =~= Seq::<Option<Fixture>>::empty());
    assert(light_views(r@) =~= imported(rows@.take(0)));
    while i < rows.len()
        invariant
            i <= rows@.len(),
            light_views(r@) == imported(rows@.take(i as int)),
        decreases rows@.len() - i,
    {
        let ghost before = light_views(r@);
        proof {
            assert(rows@.take(i + 1).drop_last() =~= rows@.take(i as int));
            assert(rows@.take(i + 1).last() == rows@[i as int]);
        }
        if let Some(row) = &rows[i] {
            let address: u16 = truncate_address(row.address);
            if address >= 2 {
                let name = trim(row.name.as_str());
                let key = light_key(name.as_str(), address);
                r.push(LightConfig { key, name, mac: trim(row.mac.as_str()), address });
                assert(light_views(r@) =~= before.push(fixture_light(*row)));
            }
        }
        i = i + 1;
    }
    assert(rows@.take(i as int) =~= rows@);
    r
}

/// A key as it is kept: without white space around it, in upper case.
pub open spec fn kept_key(key: Seq<char>) -> Seq<char> {
    uppercase(trimmed(key))
}

/// Takes the keys over from the mesh table, where neither of them is empty.
pub fn import_keys(net_key: &str, app_key: &str) -> (r: Option<(String, String)>)
    ensures
        r is Some <==> kept_key(net_key@).len() > 0 && kept_key(app_key@).len() > 0,
        r matches Some((net, app)) ==> net@ == kept_key(net_key@) && app@ == kept_key(app_key@),
{
    let net = trim(net_key).as_str().to_uppercase();
    let app = trim(app_key).as_str().to_uppercase();
    if chars_of(net.as_str()).len() == 0 || chars_of(app.as_str()).len() == 0 {
        None
    } else {
        Some((net, app))
    }
}

/// What is said where a key is empty.
pub fn empty_key_message() -> (r: String)
    ensures
        r@ == "could not read net_key/app_key from mesh table"@,
{
    "could not read net_key/app_key from mesh table".to_owned()
}

/// Whether an answer in lower case starts with `letter`.
pub fn starts_with(lower: &str, letter: char) -> (r: bool)
    ensures
        r == (lower@.len() > 0 && lower@[0] == letter),
{
    let chars = chars_of(lower);
    chars.len() > 0 && chars[0] == letter
}

/// Whether an answer to a question that stands at yes is no refusal.
pub fn not_refused(answer: &str) -> (r: bool)
    ensures
        r == !(lowercase(answer@).len() > 0 && lowercase(answer@)[0] == 'n'),
{
    !starts_with(answer.to_lowercase().as_str(), 'n')
}

/// Whether an answer to a question that stands at no is an assent.
pub fn affirmed(answer: &str) -> (r: bool)
    ensures
        r == (lowercase(answer@).len() > 0 && lowercase(answer@)[0] == 'y'),
{
    starts_with(answer.to_lowercase().as_str(), 'y')
}

/// The position of the light that an answer picks: lights are counted from one, an answer that
/// is no number picks the first, and one that is too large the last.
pub open spec fn hub_index(answer: Seq<char>, count: nat) -> int {
    let n = match unsigned_value(answer, usize::MAX as nat) {
        Some(n) => n as int,
        None => 1,
    };
    let i = if n > 0 {
        n - 1
    } else {
        0
    };
    if i < count {
        i
    } else {
        count - 1
    }
}

/// The address of the light that an answer picks as the relay hub.
pub fn pick_relay_hub(lights: &Vec<LightConfig>, answer: &str) -> (r: String)
    requires
        lights@.len() > 0,
    ensures
        0 <= hub_index(answer@, lights@.len()) < lights@.len(),
        r@ == lights@[hub_index(answer@, lights@.len())].mac@,
{
    let n: u64 = match parse_unsigned(answer, usize::MAX as u64) {
        Some(n) => n,
        None => 1,
    };
    let i: usize = if n > 0 {
        (n - 1) as usize
    } else {
        0
    };
    if i < lights.len() {
        lights[i].mac.clone()
    } else {
        lights[lights.len() - 1].mac.clone()
    }
}

/// The light that the answers about it make.
pub fn manual_light(name: String, mac: &str, address: &str) -> (r: LightConfig)
    ensures
        r@ == entered_light(name@, mac@, address@),
{
    let a: u16 = match parse_u16(address) {
        Some(n) => n,
        None => 0,
    };
    let key = light_key(name.as_str(), a);
    LightConfig { key, name, mac: mac.to_uppercase(), address: a }
}

/// Gives a light the key in an answer, unless that is empty.
pub fn rename_light(light: &mut LightConfig, answer: String)
    ensures
        final(light)@ == renamed(old(light)@, answer@),
{
    if chars_of(answer.as_str()).len() > 0 {
        light.key = answer;
    }
}

/// `c`, in lower case where it is an ASCII letter.
pub open spec fn ascii_lower(c: char) -> char {
    if 'A' <= c <= 'Z' {
        (c as int + 32) as char
    } else {
        c
    }
}

/// Whether two texts are the same but for the case of ASCII letters.
pub open spec fn same_ignoring_case(a: Seq<char>, b: Seq<char>) -> bool {
    a.len() == b.len() && forall|i: int|
        0 <= i < a.len() ==> ascii_lower(#[trigger] a[i]) == ascii_lower(b[i])
}

fn to_ascii_lower(c: char) -> (r: char)
    ensures
        r == ascii_lower(c),
{
    if c >= 'A' && c <= 'Z' {
        (c as u8 + 32) as char
    } else {
        c
    }
}

fn eq_ignoring_case(a: &str, b: &str) -> (r: bool)
    ensures
        r == same_ignoring_case(a@, b@),
{
    let x = chars_of(a);
    let y = chars_of(b);
    if x.len() != y.len() {
        return false;
    }
    let mut i: usize = 0;
    while i < x.len()
        invariant
            i <= x@.len(),
            x@ == a@,
            y@ == b@,
            x@.len() == y@.len(),
            forall|k: int| 0 <= k < i ==> ascii_lower(#[trigger] x@[k]) == ascii_lower(y@[k]),
        decreases x@.len() - i,
    {
        if to_ascii_lower(x[i]) != to_ascii_lower(y[i]) {
            assert(ascii_lower(x@[i as int]) != ascii_lower(y@[i as int]));
            return false;
        }
        i = i + 1;
    }
    true
}

/// The name of the first light with the address of the hub, or that address.
pub open spec fn hub_name_of(lights: Seq<LightView>, relay_hub: Seq<char>) -> Seq<char>
    decreases lights.len(),
{
    if lights.len() == 0 {
        relay_hub
    } else if same_ignoring_case(lights[0].mac, relay_hub) {
        lights[0].name
    } else {
        hub_name_of(lights.drop_first(), relay_hub)
    }
}

/// The name that the relay hub is shown under.
pub fn hub_name(config: &Config) -> (r: String)
    ensures
        r@ == hub_name_of(light_views(config.lights@), config.relay_hub@),
{
    let ghost all = light_views(config.lights@);
    let mut i: usize = 0;
    assert(all.skip(0) =~= all);
    while i < config.lights.len()
        invariant
            i <= config.lights@.len(),
            all == light_views(config.lights@),
            hub_name_of(all, config.relay_hub@) == hub_name_of(
                all.skip(i as int),
                config.relay_hub@,
            ),
        decreases config.lights@.len() - i,
    {
        assert(all.skip(i as int)[0] == config.lights@[i as int]@);
        if eq_ignoring_case(config.lights[i].mac.as_str(), config.relay_hub.as_str()) {
            return config.lights[i].name.clone();
        }
        assert(all.skip(i as int).drop_first() =~= all.skip(i + 1));
        i = i + 1;
    }
    config.relay_hub.clone()
}

/// What the setup asks for.
#[derive(Debug, Clone, Copy, PartialEq, Eq)]
pub enum Question {
    /// Whether to import from the database that was found.
    UseDatabase,
    NetKey,
    AppKey,
    LightName,
    LightMac,
    LightAddress,
    /// Whether there is another light.
    AnotherLight,
    /// Which light is the relay hub.
    RelayHub,
    /// The key of the light at this position.
    LightKey(usize),
}

/// Where the setup stands.
#[derive(Debug, Clone, Copy, PartialEq, Eq)]
pub enum Stage {
    /// A question waits for its answer.
    Asking(Question),
    /// The database is to be read.
    Importing,
    /// The configuration is to be saved.
    Done,
}

/// The setup, from the first question to the configuration.
pub struct Wizard {
    stage: Stage,
    net_key: String,
    app_key: String,
    relay_hub: String,
    lights: Vec<LightConfig>,
    name: String,
    mac: String,
}

/// The setup as contracts speak of it.
pub struct WizardView {
    pub stage: Stage,
    pub net_key: Seq<char>,
    pub app_key: Seq<char>,
    pub relay_hub: Seq<char>,
    pub lights: Seq<LightView>,
    pub name: Seq<char>,
    pub mac: Seq<char>,
}

impl View for Wizard {
    type V = WizardView;

    closed spec fn view(&self) -> WizardView {
        WizardView {
            stage: self.stage,
            net_key: self.net_key@,
            app_key: self.app_key@,
            relay_hub: self.relay_hub@,
            lights: light_views(self.lights@),
            name: self.name@,
            mac: self.mac@,
        }
    }
}

impl WizardView {
    /// Whether the address of the relay hub is that of a light.
    pub open spec fn hub_known(self) -> bool {
        exists|i: int| 0 <= i < self.lights.len() && (#[trigger] self.lights[i]).mac == self.relay_hub
    }

    /// There is a light where one is asked about, and once the relay hub was picked it is one of
    /// the lights.
    pub open spec fn wf(self) -> bool {
        match self.stage {
            Stage::Asking(Question::RelayHub) => self.lights.len() > 0,
            Stage::Asking(Question::AnotherLight) => self.lights.len() > 0,
            Stage::Asking(Question::LightKey(i)) => i < self.lights.len() && self.hub_known(),
            Stage::Done => self.hub_known(),
            _ => true,
        }
    }

    /// The same with another stage.
    pub open spec fn at(self, stage: Stage) -> WizardView {
        WizardView { stage, ..self }
    }
}

/// The light that the answers about it make.
pub open spec fn entered_light(name: Seq<char>, mac: Seq<char>, address: Seq<char>) -> LightView {
    let a = match unsigned_value(address, 65535) {
        Some(n) => n as u16,
        None => 0,
    };
    LightView { key: key_of(lowercase(name), a), name, mac: uppercase(mac), address: a }
}

/// A light with the key in an answer, unless that is empty.
pub open spec fn renamed(light: LightView, answer: Seq<char>) -> LightView {
    LightView {
        key: if answer.len() > 0 {
            answer
        } else {
            light.key
        },
        ..light
    }
}

/// Where the setup stands after an answer.
pub open spec fn answered(w: WizardView, question: Question, answer: Seq<char>) -> WizardView {
    match question {
        Question::UseDatabase => w.at(
            if lowercase(answer).len() > 0 && lowercase(answer)[0] == 'n' {
                Stage::Asking(Question::NetKey)
            } else {
                Stage::Importing
            },
        ),
        Question::NetKey => WizardView { net_key: uppercase(answer), ..w }.at(
            Stage::Asking(Question::AppKey),
        ),
        Question::AppKey => WizardView { app_key: uppercase(answer), ..w }.at(
            Stage::Asking(Question::LightName),
        ),
        Question::LightName => WizardView { name: answer, ..w }.at(
            Stage::Asking(Question::LightMac),
        ),
        Question::LightMac => WizardView { mac: answer, ..w }.at(
            Stage::Asking(Question::LightAddress),
        ),
        Question::LightAddress => WizardView {
            lights: w.lights.push(entered_light(w.name, w.mac, answer)),
            ..w
        }.at(Stage::Asking(Question::AnotherLight)),
        Question::AnotherLight => w.at(
            if lowercase(answer).len() > 0 && lowercase(answer)[0] == 'y' {
                Stage::Asking(Question::LightName)
            } else {
                Stage::Asking(Question::RelayHub)
            },
        ),
        Question::RelayHub => WizardView {
            relay_hub: w.lights[hub_index(answer, w.lights.len())].mac,
            ..w
        }.at(Stage::Asking(Question::LightKey(0))),
        Question::LightKey(i) => WizardView {
            lights: w.lights.update(i as int, renamed(w.lights[i as int], answer)),
            ..w
        }.at(
            if i + 1 < w.lights.len() {
                Stage::Asking(Question::LightKey((i + 1) as usize))
            } else {
                Stage::Done
            },
        ),
    }
}

/// Where the setup stands after reading the database: the lights found there need a relay hub;
/// without lights everything is asked for.
pub open spec fn after_import(
    w: WizardView,
    net_key: Seq<char>,
    app_key: Seq<char>,
    found: Seq<LightView>,
) -> WizardView {
    if found.len() == 0 {
        w.at(Stage::Asking(Question::NetKey))
    } else {
        WizardView { net_key, app_key, lights: found, ..w }.at(Stage::Asking(Question::RelayHub))
    }
}

impl Wizard {
    /// Starts the setup.
    pub fn start(database_found: bool) -> (r: Wizard)
        ensures
            r@ == (WizardView {
                stage: Stage::Asking(
                    if database_found {
                        Question::UseDatabase
                    } else {
                        Question::NetKey
                    },
                ),
                net_key: ""@,
                app_key: ""@,
                relay_hub: ""@,
                lights: Seq::empty(),
                name: ""@,
                mac: ""@,
            }),
            r@.wf(),
    {
        let question = if database_found {
            Question::UseDatabase
        } else {
            Question::NetKey
        };
        let lights: Vec<LightConfig> = Vec::new();
        assert(light_views(lights@) =~= Seq::<LightView>::empty());
        Wizard {
            stage: Stage::Asking(question),
            net_key: "".to_owned(),
            app_key: "".to_owned(),
            relay_hub: "".to_owned(),
            lights,
            name: "".to_owned(),
            mac: "".to_owned(),
        }
    }

    /// Where the setup stands.
    pub fn stage(&self) -> (r: Stage)
        ensures
            r == self@.stage,
    {
        self.stage
    }

    /// The lights that are known so far.
    pub fn lights(&self) -> (r: &Vec<LightConfig>)
        ensures
            light_views(r@) == self@.lights,
    {
        &self.lights
    }

    /// Takes an answer in.
    pub fn answer(&mut self, question: Question, answer: String)
        requires
            old(self)@.wf(),
            old(self)@.stage == Stage::Asking(question),
        ensures
            final(self)@ == answered(old(self)@, question, answer@),
            final(self)@.wf(),
    {
        let ghost before = self@;
        match question {
            Question::UseDatabase => {
                if not_refused(answer.as_str()) {
                    self.stage = Stage::Importing;
                } else {
                    self.stage = Stage::Asking(Question::NetKey);
                }
            },
            Question::NetKey => {
                self.net_key = answer.as_str().to_uppercase();
                self.stage = Stage::Asking(Question::AppKey);
            },
            Question::AppKey => {
                self.app_key = answer.as_str().to_uppercase();
                self.stage = Stage::Asking(Question::LightName);
            },
            Question::LightName => {
                self.name = answer;
                self.stage = Stage::Asking(Question::LightMac);
            },
            Question::LightMac => {
                self.mac = answer;
                self.stage = Stage::Asking(Question::LightAddress);
            },
            Question::LightAddress => {
                let light = manual_light(self.name.clone(), self.mac.as_str(), answer.as_str());
                self.lights.push(light);
                self.stage = Stage::Asking(Question::AnotherLight);
                assert(light_views(self.lights@) =~= before.lights.push(light@));
            },
            Question::AnotherLight => {
                if affirmed(answer.as_str()) {
                    self.stage = Stage::Asking(Question::LightName);
                } else {
                    self.stage = Stage::Asking(Question::RelayHub);
                }
            },
            Question::RelayHub => {
                self.relay_hub = pick_relay_hub(&self.lights, answer.as_str());
                self.stage = Stage::Asking(Question::LightKey(0));
                assert(self@.lights[hub_index(answer@, self@.lights.len())].mac
                    == self@.relay_hub);
            },
            Question::LightKey(i) => {
                let count: usize = self.lights.len();
                let mut light = self.lights.remove(i);
                rename_light(&mut light, answer);
                self.lights.insert(i, light);
                if i + 1 < count {
                    self.stage = Stage::Asking(Question::LightKey(i + 1));
                } else {
                    self.stage = Stage::Done;
                }
                proof {
                    let now = light_views(self.lights@);
                    assert(now =~= before.lights.update(
                        i as int,
                        renamed(before.lights[i as int], answer@),
                    ));
                    let k = choose|k: int|
                        0 <= k < before.lights.len() && (#[trigger] before.lights[k]).mac
                            == before.relay_hub;
                    assert(now[k].mac == before.relay_hub);
                }
            },
        }
    }

    /// Takes over what was in the database. Whether there were lights comes back.
    pub fn import(&mut self, net_key: String, app_key: String, rows: &Vec<Option<Fixture>>) -> (r:
        bool)
        requires
            old(self)@.stage == Stage::Importing,
        ensures
            final(self)@ == after_import(old(self)@, net_key@, app_key@, imported(rows@)),
            final(self)@.wf(),
            r == (imported(rows@).len() > 0),
    {
        let found = import_lights(rows);
        if found.len() == 0 {
            self.stage = Stage::Asking(Question::NetKey);
            false
        } else {
            self.net_key = net_key;
            self.app_key = app_key;
            self.lights = found;
            self.stage = Stage::Asking(Question::RelayHub);
            true
        }
    }

    /// Goes on without the database, which could not be read.
    pub fn import_failed(&mut self)
        requires
            old(self)@.stage == Stage::Importing,
        ensures
            final(self)@ == old(self)@.at(Stage::Asking(Question::NetKey)),
            final(self)@.wf(),
    {
        self.stage = Stage::Asking(Question::NetKey);
    }

    /// The configuration that the setup came to.
    pub fn into_config(self) -> (r: Config)
        requires
            self@.stage == Stage::Done,
        ensures
            r.net_key@ == self@.net_key,
            r.app_key@ == self@.app_key,
            r.relay_hub@ == self@.relay_hub,
            light_views(r.lights@) == self@.lights,
            r.http is None,
            r.mqtt is None,
    {
        Config {
            net_key: self.net_key,
            app_key: self.app_key,
            relay_hub: self.relay_hub,
            lights: self.lights,
            http: None,
            mqtt: None,
        }
    }
}

/// Where the setup stands after several answers, each to the question that was asked.
pub open spec fn after_answers(w: WizardView, answers: Seq<Seq<char>>) -> WizardView
    decreases answers.len(),
{
    if answers.len() == 0 {
        w
    } else {
        let v = after_answers(w, answers.drop_last());
        match v.stage {
            Stage::Asking(q) => answered(v, q, answers.last()),
            _ => v,
        }
    }
}

/// Once the relay hub was picked, one answer for each light ends the setup, and renaming lights
/// changes neither their number nor anything but their keys.
pub proof fn law_renaming_ends(w: WizardView, answers: Seq<Seq<char>>)
    requires
        w.wf(),
        w.stage == Stage::Asking(Question::LightKey(0)),
        answers.len() == w.lights.len(),
        w.lights.len() <= usize::MAX,
    ensures
        ({
            let end = after_answers(w, answers);
            &&& end.stage == Stage::Done
            &&& end.wf()
            &&& end.net_key == w.net_key
            &&& end.app_key == w.app_key
            &&& end.relay_hub == w.relay_hub
            &&& end.lights == Seq::new(
                w.lights.len(),
                |i: int| renamed(w.lights[i], answers[i]),
            )
        }),
{
    lemma_renaming(w, answers, answers.len());
    assert(answers.take(answers.len() as int) =~= answers);
    let end = after_answers(w, answers);
    assert(end.lights =~= Seq::new(w.lights.len(), |i: int| renamed(w.lights[i], answers[i])));
    let k = choose|k: int|
        0 <= k < w.lights.len() && (#[trigger] w.lights[k]).mac == w.relay_hub;
    assert(end.lights[k].mac == w.relay_hub);
}

proof fn lemma_renaming(w: WizardView, answers: Seq<Seq<char>>, n: nat)
    requires
        w.stage == Stage::Asking(Question::LightKey(0)),
        0 < w.lights.len() <= usize::MAX,
        answers.len() == w.lights.len(),
        n <= answers.len(),
    ensures
        ({
            let v = after_answers(w, answers.take(n as int));
            &&& v.stage == if n < w.lights.len() {
                Stage::Asking(Question::LightKey(n as usize))
            } else {
                Stage::Done
            }
            &&& v.net_key == w.net_key
            &&& v.app_key == w.app_key
            &&& v.relay_hub == w.relay_hub
            &&& v.lights == Seq::new(
                w.lights.len(),
                |i: int|
                    if i < n {
                        renamed(w.lights[i], answers[i])
                    } else {
                        w.lights[i]
                    },
            )
        }),
    decreases n,
{
    let now = answers.take(n as int);
    let wanted = Seq::new(
        w.lights.len(),
        |i: int|
            if i < n {
                renamed(w.lights[i], answers[i])
            } else {
                w.lights[i]
            },
    );
    if n == 0 {
        assert(wanted =~= w.lights);
    } else {
        lemma_renaming(w, answers, (n - 1) as nat);
        assert(now.drop_last() =~= answers.take(n - 1));
        assert(now.last() == answers[n - 1]);
        let v = after_answers(w, answers.take(n - 1));
        assert(v.stage == Stage::Asking(Question::LightKey((n - 1) as usize)));
        assert(v.lights.update(n - 1, renamed(v.lights[n - 1], answers[n - 1])) =~= wanted);
    }
}

/// The key of a light is never empty, and one made of its name is at most eight ASCII letters and
/// digits.
pub proof fn law_key_shape(lower: Seq<char>, address: u16)
    ensures
        key_of(lower, address).len() > 0,
        letters(lower).len() > 0 ==> {
            &&& key_of(lower, address).len() <= 8
            &&& forall|i: int|
                0 <= i < key_of(lower, address).len() ==> alphanumeric(
                    #[trigger] key_of(lower, address)[i],
                )
        },
{
    reveal_strlit("light");
    lemma_letters(lower);
    assert forall|i: int| 0 <= i < first_eight(letters(lower)).len() implies alphanumeric(
        #[trigger] first_eight(letters(lower))[i],
    ) by {
        assert(alphanumeric(letters(lower)[i]));
    }
}

proof fn lemma_letters(s: Seq<char>)
    ensures
        forall|i: int| 0 <= i < letters(s).len() ==> alphanumeric(#[trigger] letters(s)[i]),
    decreases s.len(),
{
    reveal(Seq::filter);
    if s.len() > 0 {
        lemma_letters(s.drop_last());
    }
}

/// Every imported light has an address of at least two: neither nobody's nor this node's.
pub proof fn law_imported_addresses(rows: Seq<Option<Fixture>>)
    ensures
        forall|i: int| 0 <= i < imported(rows).len() ==> (#[trigger] imported(rows)[i]).address >= 2,
        imported(rows).len() <= rows.len(),
    decreases rows.len(),
{
    if rows.len() > 0 {
        law_imported_addresses(rows.drop_last());
    }
}

/// Whatever the answer, one of the lights is picked as the relay hub; the number of a light picks
/// that light.
pub proof fn law_hub_is_a_light(answer: Seq<char>, count: nat)
    requires
        count > 0,
    ensures
        0 <= hub_index(answer, count) < count,
        unsigned_value(answer, usize::MAX as nat) matches Some(n) ==> (1 <= n <= count ==> hub_index(
            answer,
            count,
        ) == n - 1),
{
}

/// The light picked as the relay hub gives the hub its name, where no light before it has the
/// same address.
pub proof fn law_hub_has_its_name(lights: Seq<LightView>, i: int)
    requires
        0 <= i < lights.len(),
        forall|j: int| 0 <= j < i ==> !same_ignoring_case((#[trigger] lights[j]).mac, lights[i].mac),
    ensures
        hub_name_of(lights, lights[i].mac) == lights[i].name,
    decreases lights.len(),
{
    if i > 0 {
        assert(!same_ignoring_case(lights[0].mac, lights[i].mac));
        let rest = lights.drop_first();
        assert forall|j: int| 0 <= j < i - 1 implies !same_ignoring_case(
            (#[trigger] rest[j]).mac,
            rest[i - 1].mac,
        ) by {
            assert(!same_ignoring_case(lights[j + 1].mac, lights[i].mac));
        }
        law_hub_has_its_name(rest, i - 1);
    }
}

/// Every fixture that could be read and whose address is at least two becomes a light, and the
/// lights stand in the order of the fixtures: what was imported before a row stays, and the row
/// adds its own light or nothing.
pub proof fn law_no_fixture_is_lost(rows: Seq<Option<Fixture>>, row: Fixture)
    ensures
        imported(Seq::empty()) == Seq::<LightView>::empty(),
        imported(rows.push(None)) == imported(rows),
        low_address(row.address) < 2 ==> imported(rows.push(Some(row))) == imported(rows),
        low_address(row.address) >= 2 ==> {
            let all = imported(rows.push(Some(row)));
            &&& all.len() == imported(rows).len() + 1
            &&& all.drop_last() == imported(rows)
            &&& all.last().name == trimmed(row.name@)
            &&& all.last().mac == trimmed(row.mac@)
            &&& all.last().address == low_address(row.address)
            &&& all.last().key == key_of(lowercase(trimmed(row.name@)), low_address(row.address))
        },
{
    assert(rows.push(None).drop_last() =~= rows);
    assert(rows.push(Some(row)).drop_last() =~= rows);
    if low_address(row.address) >= 2 {
        assert(imported(rows.push(Some(row))).drop_last() =~= imported(rows));
    }
}

/// Where every fixture can be read and has an address of at least two, there are as many lights as
/// fixtures, each from the fixture at its place.
pub proof fn law_good_fixtures_are_all_imported(rows: Seq<Option<Fixture>>)
    requires
        forall|i: int|
            0 <= i < rows.len() ==> (#[trigger] rows[i] matches Some(row) && 2 <= row.address
                < 65536),
    ensures
        imported(rows).len() == rows.len(),
        forall|i: int|
            0 <= i < rows.len() ==> {
                &&& (#[trigger] imported(rows)[i]).name == trimmed(rows[i]->0.name@)
                &&& imported(rows)[i].mac == trimmed(rows[i]->0.mac@)
                &&& imported(rows)[i].address == rows[i]->0.address
            },
    decreases rows.len(),
{
    if rows.len() > 0 {
        let front = rows.drop_last();
        assert forall|i: int| 0 <= i < front.len() implies (#[trigger] front[i] matches Some(row)
            && 2 <= row.address < 65536) by {
            assert(rows[i] == front[i]);
        }
        law_good_fixtures_are_all_imported(front);
        let last = rows[rows.len() - 1];
        assert(last is Some);
        law_no_fixture_is_lost(front, last->0);
        law_low_addresses(last->0.address);
        assert(front.push(last) =~= rows);
        assert forall|i: int| 0 <= i < rows.len() implies {
            &&& (#[trigger] imported(rows)[i]).name == trimmed(rows[i]->0.name@)
            &&& imported(rows)[i].mac == trimmed(rows[i]->0.mac@)
            &&& imported(rows)[i].address == rows[i]->0.address
        } by {
            if i < front.len() {
                assert(imported(rows)[i] == imported(rows).drop_last()[i]);
                assert(front[i] == rows[i]);
                assert(imported(front)[i].name == trimmed(front[i]->0.name@));
            }
        }
    }
}

/// Every fixture that could be read, with an address of at least two, has its light among the
/// imported ones, whatever the other fixtures are.
pub proof fn law_every_good_fixture_has_its_light(rows: Seq<Option<Fixture>>, i: int)
    requires
        0 <= i < rows.len(),
        rows[i] matches Some(row) && 2 <= row.address < 65536,
    ensures
        exists|j: int|
            0 <= j < imported(rows).len() && {
                &&& (#[trigger] imported(rows)[j]).name == trimmed(rows[i]->0.name@)
                &&& imported(rows)[j].mac == trimmed(rows[i]->0.mac@)
                &&& imported(rows)[j].address == rows[i]->0.address
            },
    decreases rows.len(),
{
    let front = rows.drop_last();
    let last = rows[rows.len() - 1];
    assert(front.push(last) =~= rows);
    if last is Some {
        law_no_fixture_is_lost(front, last->0);
        law_low_addresses(last->0.address);
    } else {
        law_no_fixture_is_lost(front, rows[i]->0);
    }
    if i < front.len() {
        assert(front[i] == rows[i]);
        law_every_good_fixture_has_its_light(front, i);
        let j = choose|j: int|
            0 <= j < imported(front).len() && {
                &&& (#[trigger] imported(front)[j]).name == trimmed(front[i]->0.name@)
                &&& imported(front)[j].mac == trimmed(front[i]->0.mac@)
                &&& imported(front)[j].address == front[i]->0.address
            };
        if imported(rows).len() > imported(front).len() {
            assert(imported(rows).drop_last()[j] == imported(rows)[j]);
        }
        assert(imported(rows)[j] == imported(front)[j]);
    } else {
        let j = imported(rows).len() - 1;
        assert(imported(rows)[j] == imported(rows).last());
    }
}

/// An address in range is kept; any other loses its multiples of 65536.
pub proof fn law_low_addresses(address: i64)
    ensures
        0 <= address < 65536 ==> low_address(address) == address,
        exists|k: int| address == #[trigger] (65536 * k) + low_address(address),
{
    let k = address as int / 65536;
    assert(address == (65536 * k) + low_address(address));
}

/// Letters and digits are kept in their order, and everything else is dropped.
pub proof fn law_letters(s: Seq<char>, c: char)
    ensures
        letters(Seq::empty()) == Seq::<char>::empty(),
        ('0' <= c <= '9' || 'A' <= c <= 'Z' || 'a' <= c <= 'z') ==> letters(s.push(c)) == letters(
            s,
        ).push(c),
        !('0' <= c <= '9' || 'A' <= c <= 'Z' || 'a' <= c <= 'z') ==> letters(s.push(c)) == letters(s),
{
    reveal(Seq::filter);
    assert(s.push(c).drop_last() =~= s);
}

/// The key of a light is all of the letters and digits of its name where these are one to eight,
/// the first eight of them where they are more, and otherwise `light` and its address.
pub proof fn law_keys_of_lights(lower: Seq<char>, address: u16)
    ensures
        1 <= letters(lower).len() <= 8 ==> key_of(lower, address) == letters(lower),
        letters(lower).len() > 8 ==> key_of(lower, address).len() == 8 && key_of(lower, address)
            == letters(lower).take(8),
        letters(lower).len() == 0 ==> key_of(lower, address) == "light"@ + decimal_text(
            address as nat,
        ),
{
}

/// Keys are kept in upper case, without white space around them.
pub proof fn law_kept_keys(before: Seq<char>, key: Seq<char>, after: Seq<char>)
    requires
        forall|i: int| 0 <= i < before.len() ==> white_space(#[trigger] before[i]),
        forall|i: int| 0 <= i < after.len() ==> white_space(#[trigger] after[i]),
        key.len() > 0 ==> !white_space(key[0]) && !white_space(key.last()),
    ensures
        kept_key(before + key + after) == uppercase(key),
{
    law_trimming(before, key, after);
}

/// Which light an answer picks: the one with that number, the first for zero and for what is no
/// number, the last for what is too large.
pub proof fn law_hub_answers(answer: Seq<char>, count: nat, n: nat)
    requires
        count > 0,
    ensures
        unsigned_value(answer, usize::MAX as nat) is None ==> hub_index(answer, count) == 0,
        unsigned_value(answer, usize::MAX as nat) == Some(0nat) ==> hub_index(answer, count) == 0,
        unsigned_value(answer, usize::MAX as nat) == Some(n) && 1 <= n <= count ==> hub_index(
            answer,
            count,
        ) == n - 1,
        unsigned_value(answer, usize::MAX as nat) == Some(n) && n > count ==> hub_index(
            answer,
            count,
        ) == count - 1,
{
}

/// A light that is entered has the name as it is, the address in upper case, the number of its
/// address, or zero, and the key of its name.
pub proof fn law_entered_lights(name: Seq<char>, mac: Seq<char>, address: Seq<char>, n: u16)
    ensures
        ({
            let l = entered_light(name, mac, address);
            &&& l.name == name
            &&& l.mac == uppercase(mac)
            &&& unsigned_value(address, 65535) == Some(n as nat) ==> l.address == n
            &&& unsigned_value(address, 65535) is None ==> l.address == 0
            &&& l.key == key_of(lowercase(name), l.address)
        }),
{
}

/// A light gets the key in an answer, and keeps its own without one; nothing else changes.
pub proof fn law_renaming(light: LightView, answer: Seq<char>)
    ensures
        answer.len() > 0 ==> renamed(light, answer).key == answer,
        answer.len() == 0 ==> renamed(light, answer).key == light.key,
        renamed(light, answer).name == light.name,
        renamed(light, answer).mac == light.mac,
        renamed(light, answer).address == light.address,
{
}

/// Case does not matter where texts are compared without it: letters are the same as their other
/// case, and nothing else is the same as anything else.
pub proof fn law_ignoring_case(a: Seq<char>, b: Seq<char>)
    ensures
        same_ignoring_case(a, a),
        same_ignoring_case(a, b) <==> a.len() == b.len() && forall|i: int|
            0 <= i < a.len() ==> {
                ||| #[trigger] a[i] == b[i]
                ||| 'A' <= a[i] <= 'Z' && b[i] as int == a[i] as int + 32
                ||| 'A' <= b[i] <= 'Z' && a[i] as int == b[i] as int + 32
            },
{
    assert forall|x: char, y: char|
        ascii_lower(x) == ascii_lower(y) <==> (x == y || ('A' <= x <= 'Z' && y as int == x as int
            + 32) || ('A' <= y <= 'Z' && x as int == y as int + 32)) by {
        lemma_ascii_lower(x, y);
    }
}

proof fn lemma_ascii_lower(x: char, y: char)
    ensures
        ascii_lower(x) == ascii_lower(y) <==> (x == y || ('A' <= x <= 'Z' && y as int == x as int
            + 32) || ('A' <= y <= 'Z' && x as int == y as int + 32)),
{
}

/// A hub that no light has the address of is shown by its address.
pub proof fn law_unknown_hub_is_its_address(lights: Seq<LightView>, relay_hub: Seq<char>)
    requires
        forall|i: int|
            0 <= i < lights.len() ==> !same_ignoring_case((#[trigger] lights[i]).mac, relay_hub),
    ensures
        hub_name_of(lights, relay_hub) == relay_hub,
    decreases lights.len(),
{
    if lights.len() > 0 {
        assert(!same_ignoring_case(lights[0].mac, relay_hub));
        let rest = lights.drop_first();
        assert forall|i: int| 0 <= i < rest.len() implies !same_ignoring_case(
            (#[trigger] rest[i]).mac,
            relay_hub,
        ) by {
            assert(!same_ignoring_case(lights[i + 1].mac, relay_hub));
        }
        law_unknown_hub_is_its_address(rest, relay_hub);
    }
}

/// The way through the questions, and what each answer leaves behind. Only an answer that starts
/// with an `n` declines the database, and only one that starts with a `y` adds a light.
pub proof fn law_questions(w: WizardView, answer: Seq<char>, i: usize)
    ensures
        ({
            let lower = lowercase(answer);
            let first = |c: char| lower.len() > 0 && lower[0] == c;
            let ask = |q: Question| Stage::Asking(q);
            &&& first('n') ==> answered(w, Question::UseDatabase, answer) == (WizardView {
                stage: ask(Question::NetKey),
                ..w
            })
            &&& !first('n') ==> answered(w, Question::UseDatabase, answer) == (WizardView {
                stage: Stage::Importing,
                ..w
            })
            &&& answered(w, Question::NetKey, answer) == (WizardView {
                stage: ask(Question::AppKey),
                net_key: uppercase(answer),
                ..w
            })
            &&& answered(w, Question::AppKey, answer) == (WizardView {
                stage: ask(Question::LightName),
                app_key: uppercase(answer),
                ..w
            })
            &&& answered(w, Question::LightName, answer) == (WizardView {
                stage: ask(Question::LightMac),
                name: answer,
                ..w
            })
            &&& answered(w, Question::LightMac, answer) == (WizardView {
                stage: ask(Question::LightAddress),
                mac: answer,
                ..w
            })
            &&& answered(w, Question::LightAddress, answer) == (WizardView {
                stage: ask(Question::AnotherLight),
                lights: w.lights.push(entered_light(w.name, w.mac, answer)),
                ..w
            })
            &&& first('y') ==> answered(w, Question::AnotherLight, answer) == (WizardView {
                stage: ask(Question::LightName),
                ..w
            })
            &&& !first('y') ==> answered(w, Question::AnotherLight, answer) == (WizardView {
                stage: ask(Question::RelayHub),
                ..w
            })
            &&& answered(w, Question::RelayHub, answer) == (WizardView {
                stage: ask(Question::LightKey(0)),
                relay_hub: w.lights[hub_index(answer, w.lights.len())].mac,
                ..w
            })
            &&& i < w.lights.len() <= usize::MAX ==> answered(w, Question::LightKey(i), answer) == (
            WizardView {
                stage: if i + 1 < w.lights.len() {
                    ask(Question::LightKey((i + 1) as usize))
                } else {
                    Stage::Done
                },
                lights: w.lights.update(i as int, renamed(w.lights[i as int], answer)),
                ..w
            })
        }),
{
}

/// What an import leaves: the keys and all lights that were found, and the question for the hub;
/// without lights everything is asked for.
pub proof fn law_imports(
    w: WizardView,
    net_key: Seq<char>,
    app_key: Seq<char>,
    found: Seq<LightView>,
)
    ensures
        found.len() > 0 ==> after_import(w, net_key, app_key, found) == (WizardView {
            stage: Stage::Asking(Question::RelayHub),
            net_key,
            app_key,
            lights: found,
            ..w
        }),
        found.len() == 0 ==> after_import(w, net_key, app_key, found) == (WizardView {
            stage: Stage::Asking(Question::NetKey),
            ..w
        }),
{
}

/// Where a light is asked about there is one, and once the setup has come to its end the relay hub
/// is one of the lights.
pub proof fn law_setup_stays_sound(w: WizardView, i: usize)
    requires
        w.wf(),
    ensures
        w.stage == Stage::Asking(Question::RelayHub) ==> w.lights.len() > 0,
        w.stage == Stage::Asking(Question::LightKey(i)) ==> i < w.lights.len(),
        w.stage == Stage::Asking(Question::LightKey(i)) || w.stage == Stage::Done ==> exists|k: int|
            0 <= k < w.lights.len() && (#[trigger] w.lights[k]).mac == w.relay_hub,
{
}

} // verus!
