//! Which of the devices around is connected to, and what it must offer.

use crate::config::opt_text;
use crate::controller::{BATTERY_LEVEL, PROXY_DATA_IN, PROXY_DATA_OUT};
use crate::text::{
    colons, contains, drop_hyphens, has_part, has_text, hyphens_to_colons, join_list, joined,
    law_split_first, lowercase, pad_right, padded_right, same_text, signed_decimal, signed_text, split, split_on,
    texts, without_hyphens,
};
use vstd::arithmetic::power::pow;
use vstd::prelude::*;
use vstd::string::StringExecFns;

verus! {

/// The lower-case hexadecimal digit of value `d`.
pub open spec fn hex_char(d: int) -> char {
    if d < 10 {
        ('0' as int + d) as char
    } else {
        ('a' as int + d - 10) as char
    }
}

/// The text of a UUID: 32 hexadecimal digits, the highest first, in groups of 8, 4, 4, 4 and 12
/// with hyphens between them.
pub open spec fn uuid_chars(value: u128) -> Seq<char> {
    Seq::new(
        36,
        |i: int|
            if i == 8 || i == 13 || i == 18 || i == 23 {
                '-'
            } else {
                let before = if i < 8 {
                    i
                } else if i < 13 {
                    i - 1
                } else if i < 18 {
                    i - 2
                } else if i < 23 {
                    i - 3
                } else {
                    i - 4
                };
                hex_char(value as int / pow(16, (31 - before) as nat) % 16)
            },
    )
}

/// The text that `uuid::Uuid` displays as, which is hyphenated and in lower case.
#[verifier::external_body]
fn uuid_text(value: u128) -> (r: String)
    ensures
        r@ == uuid_chars(value),
{
    uuid::Uuid::from_u128(value).to_string()
}

/// The first group of the text of a service UUID.
pub fn service_number(uuid: u128) -> (r: String)
    ensures
        r@ == split_on(uuid_chars(uuid), '-')[0],
{
    let mut groups = split(uuid_text(uuid).as_str(), '-');
    let ghost all = texts(groups@);
    let first = groups.remove(0);
    assert(all[0] == first@);
    first
}

/// What a device announces.
pub struct Properties {
    pub name: Option<String>,
    pub services: Vec<u128>,
}

/// A device in range: its identifier and, where they could be read, its properties.
pub struct Advert {
    pub id: String,
    pub props: Option<Properties>,
}

/// A device in range, in the form that it is judged by: the identifier in lower case with colons
/// for hyphens and without them, the name in lower case, and whether the device is a mesh proxy.
pub struct Sighting {
    pub addr: String,
    pub compact: String,
    pub props: Option<(String, bool)>,
}

/// A sighting as contracts speak of it.
pub struct SightingView {
    pub addr: Seq<char>,
    pub compact: Seq<char>,
    pub props: Option<(Seq<char>, bool)>,
}

impl View for Sighting {
    type V = SightingView;

    open spec fn view(&self) -> SightingView {
        SightingView {
            addr: self.addr@,
            compact: self.compact@,
            props: match self.props {
                Some((name, proxy)) => Some((name@, proxy)),
                None => None,
            },
        }
    }
}

/// Several sightings as contracts speak of them.
pub open spec fn sighting_views(v: Seq<Sighting>) -> Seq<SightingView> {
    Seq::new(v.len(), |i: int| v[i]@)
}

/// Whether the text of a service UUID holds the number of the mesh proxy service.
pub open spec fn is_proxy_service(uuid: u128) -> bool {
    has_part(uuid_chars(uuid), "1828"@)
}

/// The name that a device announces, or nothing.
pub open spec fn announced_name(props: Properties) -> Seq<char> {
    match props.name {
        Some(name) => name@,
        None => ""@,
    }
}

/// The form that a device is judged by.
pub open spec fn sighted(advert: Advert) -> SightingView {
    SightingView {
        addr: colons(lowercase(advert.id@)),
        compact: without_hyphens(lowercase(advert.id@)),
        props: match advert.props {
            Some(p) => Some(
                (
                    lowercase(announced_name(p)),
                    exists|i: int|
                        0 <= i < p.services@.len() && is_proxy_service(#[trigger] p.services@[i]),
                ),
            ),
            None => None,
        },
    }
}

fn any_proxy_service(services: &Vec<u128>) -> (r: bool)
    ensures
        r == exists|i: int|
            0 <= i < services@.len() && is_proxy_service(#[trigger] services@[i]),
{
    let mut i: usize = 0;
    while i < services.len()
        invariant
            i <= services@.len(),
            forall|k: int| 0 <= k < i ==> !is_proxy_service(#[trigger] services@[k]),
        decreases services@.len() - i,
    {
        if contains(uuid_text(services[i]).as_str(), "1828") {
            assert(is_proxy_service(services@[i as int]));
            return true;
        }
        i = i + 1;
    }
    false
}

/// Puts a device into the form that it is judged by.
pub fn sighting(advert: &Advert) -> (r: Sighting)
    ensures
        r@ == sighted(*advert),
{
    let lower = advert.id.as_str().to_lowercase();
    let props = match &advert.props {
        Some(p) => {
            let name = match &p.name {
                Some(n) => n.as_str().to_lowercase(),
                None => "".to_lowercase(),
            };
            Some((name, any_proxy_service(&p.services)))
        },
        None => None,
    };
    Sighting {
        addr: hyphens_to_colons(lower.as_str()),
        compact: drop_hyphens(lower.as_str()),
        props,
    }
}

/// The forms that several devices are judged by.
pub open spec fn all_sighted(adverts: Seq<Advert>) -> Seq<SightingView> {
    Seq::new(adverts.len(), |i: int| sighted(adverts[i]))
}

/// Puts the devices in range into the form that they are judged by.
pub fn sightings(adverts: &Vec<Advert>) -> (r: Vec<Sighting>)
    ensures
        sighting_views(r@) == all_sighted(adverts@),
{
    let mut r: Vec<Sighting> = Vec::new();
    let mut i: usize = 0;
    while i < adverts.len()
        invariant
            i <= adverts@.len(),
            r@.len() == i,
            forall|k: int| 0 <= k < i ==> (#[trigger] r@[k])@ == sighted(adverts@[k]),
        decreases adverts@.len() - i,
    {
        r.push(sighting(&adverts[i]));
        i = i + 1;
    }
    assert(sighting_views(r@) =~= all_sighted(adverts@));
    r
}

/// What is looked for: the address and the name of the relay hub, and the addresses of the
/// lights, all in lower case and the addresses with colons.
pub struct Target {
    pub hub_addr: String,
    pub hub_name: String,
    pub macs: Vec<String>,
}

/// What is looked for, as contracts speak of it.
pub struct TargetView {
    pub hub_addr: Seq<char>,
    pub hub_name: Seq<char>,
    pub macs: Seq<Seq<char>>,
}

impl View for Target {
    type V = TargetView;

    open spec fn view(&self) -> TargetView {
        TargetView {
            hub_addr: self.hub_addr@,
            hub_name: self.hub_name@,
            macs: texts(self.macs@),
        }
    }
}

/// Whether a lower-case name is that of a light.
pub open spec fn light_name(name: Seq<char>) -> bool {
    has_part(name, "amaran"@) || has_part(name, "aputure"@) || has_part(name, "slck"@)
}

/// Whether a lower-case name is that of a light.
pub fn is_light_name(name: &str) -> (r: bool)
    ensures
        r == light_name(name@),
{
    contains(name, "amaran") || contains(name, "aputure") || contains(name, "slck")
}

/// Whether a device can be connected to: it is a mesh proxy, or has the name or the address of a
/// light.
pub open spec fn candidate(target: TargetView, s: SightingView) -> bool {
    match s.props {
        Some((name, proxy)) => proxy || light_name(name) || target.macs.contains(s.addr),
        None => false,
    }
}

/// Whether a device is the relay hub: a candidate with its address, or a mesh proxy with its
/// name.
pub open spec fn is_hub(target: TargetView, s: SightingView) -> bool {
    match s.props {
        Some((name, proxy)) => candidate(target, s) && (s.addr == target.hub_addr || (proxy && name
            == target.hub_name)),
        None => false,
    }
}

/// Whether a device is one of two that are taken where nothing else was found.
pub open spec fn preferred(s: SightingView) -> bool {
    s.compact == "b3ed1263a9304e5132b3edfbb4c71aec"@ || s.compact
        == "d16927ee947b5a0ced73358c29bc4bcd"@
}

/// How a device is judged.
#[derive(Debug, Clone, Copy, PartialEq, Eq)]
pub enum Judgement {
    Ignored,
    Candidate,
    Hub,
}

/// Judges a device.
pub fn judge(target: &Target, s: &Sighting) -> (r: Judgement)
    ensures
        r == if is_hub(target@, s@) {
            Judgement::Hub
        } else if candidate(target@, s@) {
            Judgement::Candidate
        } else {
            Judgement::Ignored
        },
{
    match &s.props {
        None => Judgement::Ignored,
        Some((name, proxy)) => {
            let addr = s.addr.as_str();
            if !*proxy && !is_light_name(name.as_str()) && !has_text(&target.macs, addr) {
                Judgement::Ignored
            } else if same_text(addr, target.hub_addr.as_str()) || (*proxy && same_text(
                name.as_str(),
                target.hub_name.as_str(),
            )) {
                Judgement::Hub
            } else {
                Judgement::Candidate
            }
        },
    }
}

fn is_preferred(s: &Sighting) -> (r: bool)
    ensures
        r == preferred(s@),
{
    let id = s.compact.as_str();
    same_text(id, "b3ed1263a9304e5132b3edfbb4c71aec") || same_text(
        id,
        "d16927ee947b5a0ced73358c29bc4bcd",
    )
}

/// Whether the device at `i` is the first for which `holds` is true.
pub open spec fn first_at(n: nat, holds: spec_fn(int) -> bool, i: int) -> bool {
    0 <= i < n && holds(i) && forall|k: int| 0 <= k < i ==> !#[trigger] holds(k)
}

/// Whether `r` is the position of the first device for which `holds` is true, or nothing where
/// there is none.
pub open spec fn is_first(n: nat, holds: spec_fn(int) -> bool, r: Option<usize>) -> bool {
    match r {
        Some(i) => first_at(n, holds, i as int),
        None => forall|k: int| 0 <= k < n ==> !#[trigger] holds(k),
    }
}

/// The devices of a pass that are the hub.
pub open spec fn hubs(target: TargetView, all: Seq<SightingView>) -> spec_fn(int) -> bool {
    |i: int| is_hub(target, all[i])
}

/// The devices of a pass that can be connected to.
pub open spec fn candidates(target: TargetView, all: Seq<SightingView>) -> spec_fn(int) -> bool {
    |i: int| candidate(target, all[i])
}

/// The devices of a pass that are taken where nothing else was found.
pub open spec fn fallbacks(all: Seq<SightingView>) -> spec_fn(int) -> bool {
    |i: int| preferred(all[i])
}

/// The device that a pass over those in range picks: the first that is the hub, or else, where
/// none was picked before, the first candidate.
pub open spec fn picked(
    target: TargetView,
    all: Seq<SightingView>,
    has_best: bool,
    r: Option<usize>,
) -> bool {
    if exists|i: int| 0 <= i < all.len() && is_hub(target, #[trigger] all[i]) {
        r is Some && is_first(all.len(), hubs(target, all), r)
    } else if has_best {
        r is None
    } else {
        is_first(all.len(), candidates(target, all), r)
    }
}

/// Picks a device among those in range.
pub fn pick(target: &Target, all: &Vec<Sighting>, has_best: bool) -> (r: Option<usize>)
    ensures
        picked(target@, sighting_views(all@), has_best, r),
{
    let ghost views = sighting_views(all@);
    let mut first: Option<usize> = None;
    let mut i: usize = 0;
    while i < all.len()
        invariant
            i <= all@.len(),
            views == sighting_views(all@),
            forall|k: int| 0 <= k < i ==> !is_hub(target@, #[trigger] views[k]),
            forall|k: int| 0 <= k < i ==> !#[trigger] hubs(target@, views)(k),
            first matches Some(j) ==> j < i && first_at(
                i as nat,
                candidates(target@, views),
                j as int,
            ),
            first is None ==> forall|k: int|
                0 <= k < i ==> !#[trigger] candidates(target@, views)(k),
        decreases all@.len() - i,
    {
        assert(views[i as int] == all@[i as int]@);
        match judge(target, &all[i]) {
            Judgement::Hub => {
                assert(is_hub(target@, views[i as int]));
                return Some(i);
            },
            Judgement::Candidate => {
                if first.is_none() {
                    first = Some(i);
                }
            },
            Judgement::Ignored => {},
        }
        i = i + 1;
    }
    if has_best {
        None
    } else {
        first
    }
}

fn find_preferred(all: &Vec<Sighting>) -> (r: Option<usize>)
    ensures
        is_first(all@.len(), fallbacks(sighting_views(all@)), r),
{
    let ghost views = sighting_views(all@);
    let mut i: usize = 0;
    while i < all.len()
        invariant
            i <= all@.len(),
            views == sighting_views(all@),
            forall|k: int| 0 <= k < i ==> !#[trigger] fallbacks(views)(k),
        decreases all@.len() - i,
    {
        assert(views[i as int] == all@[i as int]@);
        if is_preferred(&all[i]) {
            return Some(i);
        }
        i = i + 1;
    }
    None
}

/// One second, in nanoseconds.
pub const SECOND: u128 = 1_000_000_000;

/// The pause between two passes, in milliseconds.
pub const PASS_PAUSE_MS: u64 = 300;

/// What happens after a pass.
#[derive(Debug, Clone, Copy, PartialEq, Eq)]
pub enum Verdict {
    /// Connect to the device picked last.
    Connect,
    /// Stop without a device.
    GiveUp,
    /// Wait, then look again.
    Again,
}

/// The outcome of a pass: the device that is now the one picked, where it changed, and what to
/// do.
pub struct ScanStep {
    pub pick: Option<usize>,
    pub verdict: Verdict,
}

/// Whether `r` follows where a pass picked `p`: a device that was picked is taken once more than
/// four seconds have passed. After five, where none was, a preferred device is taken. After
/// fifteen the scan ends.
pub open spec fn follows(
    all: Seq<SightingView>,
    has_best: bool,
    elapsed: u128,
    p: Option<usize>,
    r: ScanStep,
) -> bool {
    if (has_best || p is Some) && elapsed > 4 * SECOND {
        r.pick == p && r.verdict == Verdict::Connect
    } else if elapsed > 5 * SECOND {
        &&& is_first(all.len(), fallbacks(all), r.pick)
        &&& r.verdict == if r.pick is Some {
            Verdict::Connect
        } else if elapsed > 15 * SECOND {
            Verdict::GiveUp
        } else {
            Verdict::Again
        }
    } else {
        r.pick == p && r.verdict == Verdict::Again
    }
}

/// Whether `r` is the outcome of a pass that started `elapsed` nanoseconds after the scan did.
pub open spec fn scan_outcome(
    target: TargetView,
    all: Seq<SightingView>,
    has_best: bool,
    elapsed: u128,
    r: ScanStep,
) -> bool {
    exists|p: Option<usize>| #[trigger]
        picked(target, all, has_best, p) && follows(all, has_best, elapsed, p, r)
}

/// Decides after a pass over the devices in range.
pub fn scan_pass(target: &Target, all: &Vec<Sighting>, has_best: bool, elapsed: u128) -> (r:
    ScanStep)
    ensures
        scan_outcome(target@, sighting_views(all@), has_best, elapsed, r),
{
    let found = pick(target, all, has_best);
    if (has_best || found.is_some()) && elapsed > 4 * SECOND {
        return ScanStep { pick: found, verdict: Verdict::Connect };
    }
    if elapsed > 5 * SECOND {
        let fallback = find_preferred(all);
        if fallback.is_some() {
            return ScanStep { pick: fallback, verdict: Verdict::Connect };
        }
        if elapsed > 15 * SECOND {
            return ScanStep { pick: None, verdict: Verdict::GiveUp };
        }
        return ScanStep { pick: None, verdict: Verdict::Again };
    }
    ScanStep { pick: found, verdict: Verdict::Again }
}

/// The name that a device is shown under.
pub open spec fn shown_name(name: Option<Seq<char>>) -> Seq<char> {
    match name {
        Some(n) => n,
        None => "(unknown)"@,
    }
}

/// The first groups of the texts of several service UUIDs.
pub open spec fn service_numbers(services: Seq<u128>) -> Seq<Seq<char>> {
    Seq::new(services.len(), |i: int| split_on(uuid_chars(services[i]), '-')[0])
}

/// The line that shows a device: a mark where its name in lower case, `lower`, is that of a
/// light, the name, the identifier, the signal strength and the services.
pub open spec fn device_line(
    lower: Seq<char>,
    name: Seq<char>,
    id: Seq<char>,
    rssi: int,
    services: Seq<u128>,
) -> Seq<char> {
    "  "@ + (if light_name(lower) {
        "* "@
    } else {
        "  "@
    }) + padded_right(name, 30) + " "@ + id + "  rssi="@ + signed_text(rssi) + "  svc="@ + joined(
        service_numbers(services),
        ","@,
    )
}

/// The line that shows a device with the name `name`, which is `lower` in lower case.
pub fn line_of_device(lower: &str, name: &str, id: &str, rssi: i16, services: &Vec<u128>) -> (r:
    String)
    ensures
        r@ == device_line(lower@, name@, id@, rssi as int, services@),
{
    let mut numbers: Vec<String> = Vec::new();
    let mut i: usize = 0;
    while i < services.len()
        invariant
            i <= services@.len(),
            numbers@.len() == i,
            forall|k: int|
                0 <= k < i ==> (#[trigger] numbers@[k])@ == service_numbers(services@)[k],
        decreases services@.len() - i,
    {
        numbers.push(service_number(services[i]));
        i = i + 1;
    }
    assert(texts(numbers@) =~= service_numbers(services@));
    let mut r = "  ".to_owned();
    r.append(
        if is_light_name(lower) {
            "* "
        } else {
            "  "
        },
    );
    r.append(pad_right(name, 30).as_str());
    r.append(" ");
    r.append(id);
    r.append("  rssi=");
    r.append(signed_decimal(rssi as i64).as_str());
    r.append("  svc=");
    r.append(join_list(&numbers, ",").as_str());
    r
}

/// The line that shows a device in a list of those in range. A device without a name is shown as
/// unknown, and one without a signal strength with zero.
pub fn scan_line(name: &Option<String>, id: &str, rssi: Option<i16>, services: &Vec<u128>) -> (r:
    String)
    ensures
        r@ == device_line(
            lowercase(shown_name(opt_text(*name))),
            shown_name(opt_text(*name)),
            id@,
            match rssi {
                Some(n) => n as int,
                None => 0,
            },
            services@,
        ),
{
    let shown = match name {
        Some(n) => n.as_str(),
        None => "(unknown)",
    };
    let strength: i16 = match rssi {
        Some(n) => n,
        None => 0,
    };
    line_of_device(shown.to_lowercase().as_str(), shown, id, strength, services)
}

/// Where the characteristics of the mesh proxy and of the battery stand among those of a device.
#[derive(Debug, Clone, Copy, PartialEq, Eq)]
pub struct Characteristics {
    pub data_in: usize,
    pub data_out: usize,
    pub battery: Option<usize>,
}

/// The characteristics with the identifier `uuid`.
pub open spec fn with_uuid(uuids: Seq<u128>, uuid: u128) -> spec_fn(int) -> bool {
    |i: int| uuids[i] == uuid
}

fn find_uuid(uuids: &Vec<u128>, uuid: u128) -> (r: Option<usize>)
    ensures
        is_first(uuids@.len(), with_uuid(uuids@, uuid), r),
{
    let mut i: usize = 0;
    while i < uuids.len()
        invariant
            i <= uuids@.len(),
            forall|k: int| 0 <= k < i ==> !#[trigger] with_uuid(uuids@, uuid)(k),
        decreases uuids@.len() - i,
    {
        if uuids[i] == uuid {
            return Some(i);
        }
        i = i + 1;
    }
    None
}

/// Finds the characteristics in use. Both of the mesh proxy must be there.
pub fn find_characteristics(uuids: &Vec<u128>) -> (r: Option<Characteristics>)
    ensures
        r is Some <==> uuids@.contains(PROXY_DATA_IN) && uuids@.contains(PROXY_DATA_OUT),
        r matches Some(c) ==> {
            &&& is_first(uuids@.len(), with_uuid(uuids@, PROXY_DATA_IN), Some(c.data_in))
            &&& is_first(uuids@.len(), with_uuid(uuids@, PROXY_DATA_OUT), Some(c.data_out))
            &&& is_first(uuids@.len(), with_uuid(uuids@, BATTERY_LEVEL), c.battery)
        },
{
    let data_in = find_uuid(uuids, PROXY_DATA_IN);
    let data_out = find_uuid(uuids, PROXY_DATA_OUT);
    let battery = find_uuid(uuids, BATTERY_LEVEL);
    proof {
        lemma_first_exists(uuids@, PROXY_DATA_IN, data_in);
        lemma_first_exists(uuids@, PROXY_DATA_OUT, data_out);
    }
    match (data_in, data_out) {
        (Some(data_in), Some(data_out)) => Some(Characteristics { data_in, data_out, battery }),
        _ => None,
    }
}

proof fn lemma_first_exists(uuids: Seq<u128>, uuid: u128, r: Option<usize>)
    requires
        is_first(uuids.len(), with_uuid(uuids, uuid), r),
    ensures
        r is Some <==> uuids.contains(uuid),
{
    if let Some(i) = r {
        assert(uuids[i as int] == uuid);
    } else {
        assert forall|k: int| 0 <= k < uuids.len() implies uuids[k] != uuid by {
            assert(!with_uuid(uuids, uuid)(k));
        }
    }
}

proof fn lemma_first_unique(n: nat, holds: spec_fn(int) -> bool, r1: Option<usize>, r2: Option<
    usize,
>)
    requires
        is_first(n, holds, r1),
        is_first(n, holds, r2),
    ensures
        r1 == r2,
{
    match (r1, r2) {
        (Some(i), Some(j)) => {
            if i < j {
                assert(!holds(i as int));
            } else if j < i {
                assert(!holds(j as int));
            }
        },
        (Some(i), None) => {
            assert(!holds(i as int));
        },
        (None, Some(j)) => {
            assert(!holds(j as int));
        },
        (None, None) => {},
    }
}

/// What a pass picks is determined by the devices in range and by whether one was picked before.
pub proof fn law_pick_unique(
    target: TargetView,
    all: Seq<SightingView>,
    has_best: bool,
    r1: Option<usize>,
    r2: Option<usize>,
)
    requires
        picked(target, all, has_best, r1),
        picked(target, all, has_best, r2),
    ensures
        r1 == r2,
{
    if exists|i: int| 0 <= i < all.len() && is_hub(target, #[trigger] all[i]) {
        lemma_first_unique(all.len(), hubs(target, all), r1, r2);
    } else if !has_best {
        lemma_first_unique(all.len(), candidates(target, all), r1, r2);
    }
}

/// The outcome of a pass is determined by what it is given.
pub proof fn law_scan_outcome_unique(
    target: TargetView,
    all: Seq<SightingView>,
    has_best: bool,
    elapsed: u128,
    r1: ScanStep,
    r2: ScanStep,
)
    requires
        scan_outcome(target, all, has_best, elapsed, r1),
        scan_outcome(target, all, has_best, elapsed, r2),
    ensures
        r1 == r2,
{
    let p1 = choose|p: Option<usize>| #[trigger]
        picked(target, all, has_best, p) && follows(all, has_best, elapsed, p, r1);
    assert forall|p: Option<usize>| #[trigger] picked(target, all, has_best, p) implies p == p1 by {
        law_pick_unique(target, all, has_best, p, p1);
    }
    if elapsed > 5 * SECOND && !(has_best || p1 is Some) {
        lemma_first_unique(all.len(), fallbacks(all), r1.pick, r2.pick);
    }
}

/// The relay hub in range is picked over every other device, whatever was picked before.
pub proof fn law_hub_wins(
    target: TargetView,
    all: Seq<SightingView>,
    has_best: bool,
    r: Option<usize>,
)
    requires
        picked(target, all, has_best, r),
        exists|i: int| 0 <= i < all.len() && is_hub(target, #[trigger] all[i]),
    ensures
        r matches Some(i) && i < all.len() && is_hub(target, all[i as int]),
{
    assert(hubs(target, all)(r->0 as int));
}

/// One pass of a scan: the devices in range, when it started, and its outcome.
pub struct Pass {
    pub all: Seq<SightingView>,
    pub elapsed: u128,
    pub step: ScanStep,
}

/// Whether one of the first `n` passes picked a device.
pub open spec fn picked_before(passes: Seq<Pass>, n: int) -> bool {
    exists|i: int| 0 <= i < n && (#[trigger] passes[i]).step.pick is Some
}

/// Whether `passes` are the passes of one scan: each has the outcome that the devices in range
/// and the passes before it lead to.
pub open spec fn is_scan(target: TargetView, passes: Seq<Pass>) -> bool {
    forall|i: int|
        0 <= i < passes.len() ==> scan_outcome(
            target,
            (#[trigger] passes[i]).all,
            picked_before(passes, i),
            passes[i].elapsed,
            passes[i].step,
        )
}

/// Over all passes of a scan, a device that was picked is replaced by nothing but the relay hub.
pub proof fn law_only_the_hub_replaces(target: TargetView, passes: Seq<Pass>, i: int, j: int)
    requires
        is_scan(target, passes),
        0 <= i < j < passes.len(),
        passes[i].step.pick is Some,
        passes[j].step.pick is Some,
    ensures
        passes[j].step.pick matches Some(k) && k < passes[j].all.len() && is_hub(
            target,
            passes[j].all[k as int],
        ),
{
    let pass = passes[j];
    assert(picked_before(passes, j));
    assert(scan_outcome(target, pass.all, true, pass.elapsed, pass.step));
    assert(picked(target, pass.all, true, pass.step.pick));
    law_hub_wins(target, pass.all, true, pass.step.pick);
}

/// A scan ends: after more than fifteen seconds no pass asks for another one, and a device that
/// was picked is connected to after more than four.
pub proof fn law_scan_ends(
    target: TargetView,
    all: Seq<SightingView>,
    has_best: bool,
    elapsed: u128,
    r: ScanStep,
)
    requires
        scan_outcome(target, all, has_best, elapsed, r),
    ensures
        elapsed > 15 * SECOND ==> r.verdict != Verdict::Again,
        has_best && elapsed > 4 * SECOND ==> r.verdict == Verdict::Connect,
        elapsed <= 4 * SECOND ==> r.verdict == Verdict::Again,
        r.verdict == Verdict::GiveUp ==> !has_best && r.pick is None,
        r.verdict == Verdict::Connect ==> has_best || r.pick is Some,
{
}

/// A name is that of a light where it holds one of three words.
pub proof fn law_light_names(name: Seq<char>)
    ensures
        light_name(name) <==> has_part(name, "amaran"@) || has_part(name, "aputure"@) || has_part(
            name,
            "slck"@,
        ),
{
}

/// How a device is judged: without properties it is nothing. It is a candidate as a mesh proxy, by
/// its name or by its address; a candidate is the hub by its address, or as a mesh proxy by its
/// name.
pub proof fn law_judging(
    target: TargetView,
    addr: Seq<char>,
    compact: Seq<char>,
    name: Seq<char>,
    proxy: bool,
)
    ensures
        ({
            let s = SightingView { addr, compact, props: Some((name, proxy)) };
            let known = exists|i: int|
                0 <= i < target.macs.len() && #[trigger] target.macs[i] == addr;
            &&& candidate(target, s) <==> proxy || light_name(name) || known
            &&& is_hub(target, s) <==> (proxy || light_name(name) || known) && (addr
                == target.hub_addr || (proxy && name == target.hub_name))
        }),
        ({
            let s = SightingView { addr, compact, props: None };
            !candidate(target, s) && !is_hub(target, s)
        }),
        preferred(SightingView { addr, compact, props: None }) <==> compact
            == "b3ed1263a9304e5132b3edfbb4c71aec"@ || compact == "d16927ee947b5a0ced73358c29bc4bcd"@,
        preferred(SightingView { addr, compact, props: Some((name, proxy)) }) <==> preferred(
            SightingView { addr, compact, props: None },
        ),
{
    if target.macs.contains(addr) {
        let i = choose|i: int| 0 <= i < target.macs.len() && target.macs[i] == addr;
        assert(target.macs[i] == addr);
    }
}

/// What a device is judged by: its identifier in lower case, with colons and without hyphens, its
/// name in lower case, and whether one of its services is the mesh proxy service.
pub proof fn law_sightings(advert: Advert)
    ensures
        ({
            let s = sighted(advert);
            &&& s.addr == colons(lowercase(advert.id@))
            &&& s.compact == without_hyphens(lowercase(advert.id@))
            &&& s.props is Some <==> advert.props is Some
            &&& advert.props matches Some(p) ==> {
                &&& p.name matches Some(n) ==> (s.props->0).0 == lowercase(n@)
                &&& p.name is None ==> (s.props->0).0 == lowercase(""@)
                &&& (s.props->0).1 <==> exists|i: int|
                    0 <= i < p.services@.len() && has_part(
                        uuid_chars(#[trigger] p.services@[i]),
                        "1828"@,
                    )
            }
        }),
{
    if let Some(p) = advert.props {
        if (sighted(advert).props->0).1 {
            let i = choose|i: int|
                0 <= i < p.services@.len() && is_proxy_service(#[trigger] p.services@[i]);
            assert(has_part(uuid_chars(p.services@[i]), "1828"@));
        }
        if exists|i: int|
            0 <= i < p.services@.len() && has_part(uuid_chars(#[trigger] p.services@[i]), "1828"@) {
            let i = choose|i: int|
                0 <= i < p.services@.len() && has_part(
                    uuid_chars(#[trigger] p.services@[i]),
                    "1828"@,
                );
            assert(is_proxy_service(p.services@[i]));
        }
    }
}

/// What a pass picks: the first hub in range; without one nothing new where a device was picked
/// before, and otherwise the first candidate.
pub proof fn law_picking(
    target: TargetView,
    all: Seq<SightingView>,
    has_best: bool,
    r: Option<usize>,
)
    requires
        picked(target, all, has_best, r),
    ensures
        r matches Some(i) ==> {
            &&& i < all.len()
            &&& candidate(target, all[i as int])
            &&& has_best ==> is_hub(target, all[i as int])
            &&& forall|k: int| 0 <= k < i ==> !is_hub(target, #[trigger] all[k])
            &&& !is_hub(target, all[i as int]) ==> forall|k: int|
                0 <= k < all.len() ==> !is_hub(target, #[trigger] all[k])
            &&& !is_hub(target, all[i as int]) ==> forall|k: int|
                0 <= k < i ==> !candidate(target, #[trigger] all[k])
        },
        r is None ==> forall|k: int| 0 <= k < all.len() ==> !is_hub(target, #[trigger] all[k]),
        r is None && !has_best ==> forall|k: int|
            0 <= k < all.len() ==> !candidate(target, #[trigger] all[k]),
{
    let h = hubs(target, all);
    let c = candidates(target, all);
    assert forall|k: int| 0 <= k < all.len() implies h(k) == is_hub(target, #[trigger] all[k]) by {}
    assert forall|k: int| 0 <= k < all.len() implies c(k) == candidate(target, #[trigger] all[k]) by {}
}

/// What follows a pass: a device that was picked, now or before, is connected to after more than
/// four seconds. Where none was, after more than five the first preferred device in range is, and
/// after more than fifteen the scan is given up. Until then it goes on.
pub proof fn law_following(
    all: Seq<SightingView>,
    has_best: bool,
    elapsed: u128,
    p: Option<usize>,
    r: ScanStep,
)
    requires
        follows(all, has_best, elapsed, p, r),
    ensures
        (has_best || p is Some) && elapsed > 4_000_000_000 ==> r.pick == p && r.verdict
            == Verdict::Connect,
        elapsed <= 4_000_000_000 ==> r.pick == p && r.verdict == Verdict::Again,
        !has_best && p is None && elapsed <= 5_000_000_000 ==> r.pick is None && r.verdict
            == Verdict::Again,
        !has_best && p is None && elapsed > 5_000_000_000 ==> {
            &&& r.pick matches Some(i) ==> {
                &&& r.verdict == Verdict::Connect
                &&& i < all.len()
                &&& preferred(all[i as int])
                &&& forall|k: int| 0 <= k < i ==> !preferred(#[trigger] all[k])
            }
            &&& r.pick is None ==> {
                &&& forall|k: int| 0 <= k < all.len() ==> !preferred(#[trigger] all[k])
                &&& elapsed > 15_000_000_000 ==> r.verdict == Verdict::GiveUp
                &&& elapsed <= 15_000_000_000 ==> r.verdict == Verdict::Again
            }
        },
{
    let f = fallbacks(all);
    assert forall|k: int| 0 <= k < all.len() implies f(k) == preferred(#[trigger] all[k]) by {}
}

/// Which characteristic is taken: the first with the identifier.
pub proof fn law_first_characteristic(uuids: Seq<u128>, uuid: u128, r: Option<usize>)
    requires
        is_first(uuids.len(), with_uuid(uuids, uuid), r),
    ensures
        r matches Some(i) ==> {
            &&& i < uuids.len()
            &&& uuids[i as int] == uuid
            &&& forall|k: int| 0 <= k < i ==> #[trigger] uuids[k] != uuid
        },
        r is None ==> forall|k: int| 0 <= k < uuids.len() ==> #[trigger] uuids[k] != uuid,
{
    let h = with_uuid(uuids, uuid);
    assert forall|k: int| 0 <= k < uuids.len() implies h(k) == (#[trigger] uuids[k] == uuid) by {}
}

/// The line of a device, piece by piece.
pub proof fn law_device_lines(
    lower: Seq<char>,
    name: Seq<char>,
    id: Seq<char>,
    rssi: int,
    services: Seq<u128>,
    i: int,
)
    ensures
        light_name(lower) ==> device_line(lower, name, id, rssi, services) == "  "@ + "* "@
            + padded_right(name, 30) + " "@ + id + "  rssi="@ + signed_text(rssi) + "  svc="@
            + joined(service_numbers(services), ","@),
        !light_name(lower) ==> device_line(lower, name, id, rssi, services) == "  "@ + "  "@
            + padded_right(name, 30) + " "@ + id + "  rssi="@ + signed_text(rssi) + "  svc="@
            + joined(service_numbers(services), ","@),
        shown_name(Some(name)) == name,
        shown_name(None) == "(unknown)"@,
        service_numbers(services).len() == services.len(),
        0 <= i < services.len() ==> service_numbers(services)[i] == uuid_chars(services[i]).take(8),
{
    if 0 <= i < services.len() {
        let text = uuid_chars(services[i]);
        let head = text.take(8);
        let tail = text.skip(9);
        assert forall|k: int| 0 <= k < 8 implies #[trigger] head[k] != '-' by {
            let d = services[i] as int / pow(16, (31 - k) as nat) % 16;
            lemma_hex_char(d);
        }
        assert(text =~= head + seq!['-'] + tail);
        law_split_first(head, '-', tail);
        assert(split_on(text, '-')[0] == head);
    }
}

proof fn lemma_hex_char(d: int)
    requires
        0 <= d < 16,
    ensures
        hex_char(d) != '-',
{
}

/// How long a scan waits between two passes, in milliseconds, and a second in nanoseconds.
pub proof fn law_scan_times()
    ensures
        PASS_PAUSE_MS == 300,
        SECOND == 1_000_000_000,
{
}

/// Every advertisement is judged, each at its place.
pub proof fn law_all_are_sighted(adverts: Seq<Advert>, next: Advert)
    ensures
        all_sighted(Seq::empty()) == Seq::<SightingView>::empty(),
        all_sighted(adverts.push(next)) == all_sighted(adverts).push(sighted(next)),
{
    assert(all_sighted(adverts.push(next)) =~= all_sighted(adverts).push(sighted(next)));
}

/// How a service is spelled: 36 characters with hyphens behind the first eight digits and the
/// three times four that follow, and digits in lower case, of which the last counts ones and each
/// before it sixteen times as much as the next.
pub proof fn law_service_texts(uuid: u128, i: int)
    ensures
        ({
            let digit = |n: nat| uuid as int / pow(16, n) % 16;
            let t = uuid_chars(uuid);
            &&& t.len() == 36
            &&& t[8] == '-' && t[13] == '-' && t[18] == '-' && t[23] == '-'
            &&& 0 <= i < 8 ==> t[i] == hex_char(digit((31 - i) as nat))
            &&& 0 <= i < 4 ==> t[9 + i] == hex_char(digit((23 - i) as nat))
            &&& 0 <= i < 4 ==> t[14 + i] == hex_char(digit((19 - i) as nat))
            &&& 0 <= i < 4 ==> t[19 + i] == hex_char(digit((15 - i) as nat))
            &&& 0 <= i < 12 ==> t[24 + i] == hex_char(digit((11 - i) as nat))
        }),
        0 <= i <= 9 ==> hex_char(i) as int == '0' as int + i,
        10 <= i <= 15 ==> hex_char(i) as int == 'a' as int + (i - 10),
{
}

/// What contracts know of a sighting and of what is looked for is all of it.
pub proof fn law_views_of_sightings(all: Seq<Sighting>, s: Sighting, target: Target)
    ensures
        sighting_views(Seq::empty()) == Seq::<SightingView>::empty(),
        sighting_views(all.push(s)) == sighting_views(all).push(s@),
        s@.addr == s.addr@ && s@.compact == s.compact@,
        s@.props is Some <==> s.props is Some,
        s.props matches Some((name, proxy)) ==> s@.props == Some((name@, proxy)),
        target@.hub_addr == target.hub_addr@ && target@.hub_name == target.hub_name@,
        target@.macs == texts(target.macs@),
{
    assert(sighting_views(all.push(s)) =~= sighting_views(all).push(s@));
}

} // verus!
