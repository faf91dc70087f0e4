use amble::config::{Config, LightConfig};
use amble::controller::{MeshController, BATTERY_LEVEL, PROXY_DATA_IN, PROXY_DATA_OUT};
use amble::scan::{
    find_characteristics, is_light_name, judge, line_of_device, scan_line, scan_pass, service_number, sighting, sightings,
    Advert, Judgement, Properties, Target, Verdict, SECOND,
};

const PROXY_SERVICE: u128 = 0x00001828_0000_1000_8000_00805f9b34fb;
const OTHER_SERVICE: u128 = 0x0000180f_0000_1000_8000_00805f9b34fb;

fn advert(id: &str, name: Option<&str>, services: &[u128]) -> Advert {
    Advert {
        id: id.into(),
        props: Some(Properties { name: name.map(String::from), services: services.to_vec() }),
    }
}

fn unread(id: &str) -> Advert {
    Advert { id: id.into(), props: None }
}

fn target() -> Target {
    Target {
        hub_addr: "a4:00:00:01".into(),
        hub_name: "a4:00:00:01".into(),
        macs: vec!["a4:00:00:01".into(), "a4:00:00:02".into()],
    }
}

fn pass(adverts: Vec<Advert>, has_best: bool, nanos: u128) -> (Option<usize>, Verdict) {
    let step = scan_pass(&target(), &sightings(&adverts), has_best, nanos);
    (step.pick, step.verdict)
}

#[test]
fn devices_are_judged() {
    let t = target();
    let of = |a: Advert| judge(&t, &sighting(&a));
    assert_eq!(of(advert("A4-00-00-01", None, &[])), Judgement::Hub);
    assert_eq!(of(advert("A4-00-00-02", None, &[])), Judgement::Candidate);
    assert_eq!(of(advert("x", Some("My Amaran 60x"), &[])), Judgement::Candidate);
    assert_eq!(of(advert("x", Some("APUTURE"), &[])), Judgement::Candidate);
    assert_eq!(of(advert("x", Some("slck-1"), &[])), Judgement::Candidate);
    assert_eq!(of(advert("x", Some("tv"), &[OTHER_SERVICE])), Judgement::Ignored);
    assert_eq!(of(advert("x", Some("tv"), &[OTHER_SERVICE, PROXY_SERVICE])), Judgement::Candidate);
    assert_eq!(of(advert("x", Some("A4:00:00:01"), &[PROXY_SERVICE])), Judgement::Hub);
    assert_eq!(of(advert("x", Some("a4:00:00:01"), &[])), Judgement::Ignored);
    assert_eq!(of(unread("A4-00-00-01")), Judgement::Ignored);
}

#[test]
fn sightings_are_in_lower_case() {
    let s = sighting(&advert("AB-CD", Some("Lamp"), &[PROXY_SERVICE]));
    assert_eq!(s.addr, "ab:cd");
    assert_eq!(s.compact, "abcd");
    assert_eq!(s.props, Some(("lamp".to_string(), true)));
    let s = sighting(&advert("AB-CD", None, &[]));
    assert_eq!(s.props, Some(("".to_string(), false)));
}

#[test]
fn the_hub_wins_over_earlier_devices() {
    let list = || {
        vec![
            advert("x", Some("amaran"), &[]),
            advert("A4-00-00-02", None, &[]),
            advert("A4-00-00-01", None, &[]),
        ]
    };
    assert_eq!(pass(list(), false, 0), (Some(2), Verdict::Again));
    assert_eq!(pass(list(), true, 5 * SECOND), (Some(2), Verdict::Connect));
}

#[test]
fn the_first_candidate_is_kept() {
    let list = || vec![advert("tv", None, &[]), advert("x", Some("amaran"), &[])];
    assert_eq!(pass(list(), false, 4 * SECOND), (Some(1), Verdict::Again));
    assert_eq!(pass(list(), false, 4 * SECOND + 1), (Some(1), Verdict::Connect));
    assert_eq!(pass(list(), true, 4 * SECOND + 1), (None, Verdict::Connect));
    assert_eq!(pass(list(), true, 1), (None, Verdict::Again));
}

#[test]
fn preferred_devices_are_the_last_resort() {
    let list = || {
        vec![unread("tv"), unread("D16927EE-947B-5A0C-ED73-358C29BC4BCD"), unread("x")]
    };
    assert_eq!(pass(list(), false, 5 * SECOND), (None, Verdict::Again));
    assert_eq!(pass(list(), false, 5 * SECOND + 1), (Some(1), Verdict::Connect));
    let other = vec![unread("b3ed1263a9304e5132b3edfbb4c71aec")];
    assert_eq!(pass(other, false, 6 * SECOND), (Some(0), Verdict::Connect));
}

#[test]
fn a_scan_ends() {
    assert_eq!(pass(vec![], false, 15 * SECOND), (None, Verdict::Again));
    assert_eq!(pass(vec![], false, 15 * SECOND + 1), (None, Verdict::GiveUp));
    assert_eq!(pass(vec![], true, 15 * SECOND + 1), (None, Verdict::Connect));
}

#[test]
fn a_session_scans_for_its_lights() {
    let c = match MeshController::with_random(
        Config {
            net_key: "00".repeat(16),
            app_key: "11".repeat(16),
            relay_hub: "AA-BB".into(),
            lights: vec![LightConfig {
                key: "k".into(),
                name: "K".into(),
                mac: "CC-DD".into(),
                address: 2,
            }],
            http: None,
            mqtt: None,
        },
        0,
    ) {
        Ok(c) => c,
        Err(_) => panic!("keys are valid"),
    };
    let t = c.scan_target();
    assert_eq!(t.hub_addr, "aa:bb");
    assert_eq!(t.hub_name, "aa:bb");
    assert_eq!(t.macs, vec!["cc:dd"]);
    let list = vec![advert("CC:DD", None, &[]), advert("AA:BB", Some("Amaran"), &[])];
    let step = c.connect(&list, false, 5 * SECOND);
    assert_eq!(step.pick, Some(1));
    assert_eq!(step.verdict, Verdict::Connect);
}

#[test]
fn service_numbers() {
    assert_eq!(service_number(PROXY_SERVICE), "00001828");
    assert_eq!(service_number(0xfedcba98_0000_1000_8000_00805f9b34fb), "fedcba98");
    assert!(is_light_name("the amaran"));
    assert!(!is_light_name("lamp"));
}

#[test]
fn characteristics_are_found() {
    let c = find_characteristics(&vec![1, PROXY_DATA_OUT, BATTERY_LEVEL, PROXY_DATA_IN]).unwrap();
    assert_eq!((c.data_in, c.data_out, c.battery), (3, 1, Some(2)));
    let c = find_characteristics(&vec![PROXY_DATA_IN, PROXY_DATA_OUT]).unwrap();
    assert_eq!((c.data_in, c.data_out, c.battery), (0, 1, None));
    assert!(find_characteristics(&vec![PROXY_DATA_IN, BATTERY_LEVEL]).is_none());
    assert!(find_characteristics(&vec![PROXY_DATA_OUT]).is_none());
}

#[test]
fn only_the_hub_replaces_over_several_passes() {
    let passes = [
        (vec![advert("x", Some("amaran"), &[])], 0, Some(0)),
        (vec![advert("A4-00-00-02", None, &[]), advert("y", Some("aputure"), &[])], 1, None),
        (vec![advert("A4-00-00-02", None, &[]), advert("A4-00-00-01", None, &[])], 2, Some(1)),
        (vec![unread("b3ed1263a9304e5132b3edfbb4c71aec"), advert("x", Some("amaran"), &[])], 6, None),
    ];
    let mut has_best = false;
    for (adverts, seconds, expected) in passes {
        let (picked, _) = pass(adverts, has_best, seconds * SECOND);
        assert_eq!(picked, expected);
        has_best = has_best || picked.is_some();
    }
}

#[test]
fn devices_are_shown() {
    let line = scan_line(
        &Some("My AMARAN".to_string()),
        "AB-CD",
        Some(-61),
        &vec![PROXY_SERVICE, OTHER_SERVICE],
    );
    assert_eq!(
        line,
        format!("  * {:<30} {}  rssi={}  svc={}", "My AMARAN", "AB-CD", -61, "00001828,0000180f")
    );
    assert_eq!(
        scan_line(&None, "x", None, &vec![]),
        format!("    {:<30} {}  rssi={}  svc=", "(unknown)", "x", 0)
    );
    assert_eq!(
        line_of_device("amaran", "tv", "x", 5, &vec![]),
        format!("  * {:<30} x  rssi=5  svc=", "tv")
    );
}
