use amble::config::{Config, LightConfig};
use amble::controller::{
    normalize_addr, MeshController, SendAction, SendError, SendEvent, StatusError, StatusEvent,
    BATTERY_LEVEL, PROXY_DATA_OUT,
};
use amble::crypto::{aes_ccm_decrypt, k2, k4};
use amble::keys::{HexError, KeyError};
use amble::pdu::{app_nonce, decrypt_network_pdu, proxy_nonce};

const NET: &str = "7dd7364cd842ad18c17c2b820c84c3d6";
const APP: &str = "63964771734fbd76e3b40519d1d94a48";

fn key(text: &str) -> [u8; 16] {
    hex::decode(text).unwrap().try_into().unwrap()
}

fn light(key: &str, mac: &str, address: u16) -> LightConfig {
    LightConfig { key: key.into(), name: format!("{key} light"), mac: mac.into(), address }
}

fn config(net: &str, app: &str) -> Config {
    Config {
        net_key: net.into(),
        app_key: app.into(),
        relay_hub: "A4-C1-38-00-00-01".into(),
        lights: vec![light("key", "A4:C1:38:00:00:01", 2), light("back", "A4:C1:38:00:00:02", 0x1234)],
        http: None,
        mqtt: None,
    }
}

fn session(random: u32) -> MeshController {
    match MeshController::with_random(config(NET, APP), random) {
        Ok(c) => c,
        Err(_) => panic!("keys are valid"),
    }
}

fn failure(net: &str, app: &str) -> KeyError {
    match MeshController::with_random(config(net, app), 0) {
        Ok(_) => panic!("keys are invalid"),
        Err(e) => e,
    }
}

fn written(action: SendAction) -> (u64, Vec<u8>, u64) {
    match action {
        SendAction::Write { pause_ms, pdu, timeout_ms } => (pause_ms, pdu, timeout_ms),
        SendAction::Done => panic!("done"),
        SendAction::Abort(_) => panic!("aborted"),
    }
}

fn opened(pdu: &[u8], iv: u32) -> (u16, u32, Vec<u8>) {
    let keys = k2(&key(NET));
    let (payload, seq, src) = decrypt_network_pdu(pdu, &keys.enc_key, &keys.priv_key, iv).unwrap();
    assert_eq!(src, 1);
    let dst = u16::from_be_bytes([payload[0], payload[1]]);
    assert_eq!(payload[2], 0x40 | k4(&key(APP)));
    let access =
        aes_ccm_decrypt(&key(APP), &app_nonce(seq, 1, dst, iv), &payload[3..], 4).unwrap();
    (dst, seq, access)
}

#[test]
fn a_session_starts_from_the_configuration() {
    let mut c = session(4_000_001);
    assert_eq!(c.iv(), 0);
    assert_eq!(c.lights.len(), 2);
    assert_eq!(c.known_lights()[1].address, 0x1234);
    assert_eq!(c.next_seq(), 12_000_002);
}

#[test]
fn the_first_sequence_number_is_random() {
    for _ in 0..20 {
        let mut c = match MeshController::new(config(NET, APP)) {
            Ok(c) => c,
            Err(_) => panic!("keys are valid"),
        };
        let seq = c.next_seq();
        assert!((12_000_001..=16_000_000).contains(&seq));
    }
}

#[test]
fn wrong_keys_are_refused() {
    assert_eq!(failure("abc", APP), KeyError::NetKeyHex(HexError::OddLength));
    assert_eq!(
        failure("0g", APP),
        KeyError::NetKeyHex(HexError::InvalidCharacter { c: 'g', index: 1 })
    );
    assert_eq!(
        failure(NET, "zz"),
        KeyError::AppKeyHex(HexError::InvalidCharacter { c: 'z', index: 0 })
    );
    assert_eq!(failure("00", "0"), KeyError::AppKeyHex(HexError::OddLength));
    assert_eq!(failure("00", "00"), KeyError::NetKeyLength);
    assert_eq!(failure(NET, ""), KeyError::AppKeyLength);
    assert_eq!(
        failure("\u{e9}", APP),
        KeyError::NetKeyHex(HexError::InvalidCharacter { c: '\u{c3}', index: 0 })
    );
}

#[test]
fn upper_case_keys_are_the_same_keys() {
    assert!(MeshController::with_random(config(&NET.to_uppercase(), APP), 0).is_ok());
}

#[test]
fn addresses_are_normalized() {
    assert_eq!(normalize_addr("A4-C1-38-AB"), "a4:c1:38:ab");
}

#[test]
fn sequence_numbers_go_round() {
    let mut c = session(3_999_999);
    assert_eq!(c.next_seq(), 16_000_000);
    let mut seen = 16_000_000;
    while seen != 0 {
        let next = c.next_seq();
        assert_eq!(next, (seen + 1) % 0x100_0000);
        seen = next;
    }
    assert_eq!(c.next_seq(), 1);
}

#[test]
fn a_command_is_written_three_times() {
    let mut c = session(0);
    let mut job = c.set_on_off(2, true);
    let (pause, first, timeout) = written(c.send_step(&mut job, SendEvent::Start));
    assert_eq!((pause, timeout), (0, 1500));
    let (pause, second, _) = written(c.send_step(&mut job, SendEvent::Written));
    assert_eq!(pause, 80);
    let (pause, third, _) = written(c.send_step(&mut job, SendEvent::TimedOut));
    assert_eq!(pause, 80);
    assert!(matches!(c.send_step(&mut job, SendEvent::Written), SendAction::Done));
    let on = vec![0x26, 0x8d, 0, 0, 0, 0, 0, 0, 0, 1, 0x8c];
    assert_eq!(opened(&first, 0), (2, 12_000_001, on.clone()));
    assert_eq!(opened(&second, 0), (2, 12_000_002, on.clone()));
    assert_eq!(opened(&third, 0), (2, 12_000_003, on));
    assert_ne!(first, second);
    assert_eq!(c.next_seq(), 12_000_004);
}

#[test]
fn a_failed_write_ends_a_command() {
    let mut c = session(0);
    let mut job = c.set_brightness(2, 50);
    written(c.send_step(&mut job, SendEvent::Start));
    assert!(matches!(
        c.send_step(&mut job, SendEvent::Failed),
        SendAction::Abort(SendError::WriteFailed)
    ));
    assert!(matches!(
        c.send_step(&mut job, SendEvent::NotConnected),
        SendAction::Abort(SendError::NotConnected)
    ));
    assert_eq!(c.next_seq(), 12_000_002);
}

#[test]
fn nothing_is_written_without_attempts() {
    let mut c = session(0);
    let mut job = c.send(2, 0x26, &[1], 0);
    assert!(matches!(c.send_step(&mut job, SendEvent::Start), SendAction::Done));
}

#[test]
fn commands_carry_their_payloads() {
    let c = session(0);
    let job = c.set_brightness(7, 50);
    assert_eq!((job.dst, job.opcode, job.retries), (7, 0x26, 3));
    assert_eq!(job.params, vec![0x0c, 0, 0, 0, 0, 0, 0, 0, 0x7d, 0x8f]);
    assert_eq!(c.set_brightness(7, 255).params, c.set_brightness(7, 100).params);
    assert_eq!(
        c.set_cct(7, 80, 5600, 0).params,
        vec![0xae, 0, 0, 0, 0, 0x40, 0x01, 0x23, 0xc8, 0x82]
    );
    assert_eq!(
        c.set_hsi(7, 75, 240, 100).params,
        vec![0xf3, 0, 0, 0, 0, 0, 0x19, 0x9e, 0xbb, 0x81]
    );
    assert_eq!(
        c.set_rgbww(7, 1000, 500, 250, 125, 60, 333).params,
        vec![0x47, 0xd0, 0x54, 0x1f, 0x3c, 0xe8, 0x43, 0x1f, 0xfa, 0x84]
    );
    assert_eq!(c.set_on_off(7, false).params, vec![0x8c, 0, 0, 0, 0, 0, 0, 0, 0, 0x8c]);
    let query = c.query_status(7);
    assert_eq!(query.retries, 1);
    assert_eq!(query.params, vec![0xd0, 0, 0, 0, 0, 0, 0, 0, 1, 0xcf]);
}

#[test]
fn the_proxy_filter_is_set_up() {
    let mut c = session(0);
    let s = c.setup_proxy_filter();
    assert_eq!((s.settle_ms, s.status_timeout_ms, s.finish_ms), (500, 2000, 300));
    let keys = k2(&key(NET));
    let first =
        aes_ccm_decrypt(&keys.enc_key, &proxy_nonce(12_000_001, 1, 0), &s.set_filter[8..], 4);
    assert_eq!(first, Some(vec![0, 0, 0, 0]));
    let second =
        aes_ccm_decrypt(&keys.enc_key, &proxy_nonce(12_000_002, 1, 0), &s.add_addresses[8..], 4);
    assert_eq!(
        second,
        Some(vec![0, 0, 1, 0x00, 0x01, 0xff, 0xff, 0xc0, 0x00, 0x00, 0x02, 0x12, 0x34])
    );
    assert_eq!(c.next_seq(), 12_000_003);
}

#[test]
fn notifications_are_told_apart() {
    let mut c = session(0);
    let mut beacon = vec![0u8; 23];
    beacon[0] = 1;
    beacon[1] = 1;
    beacon[14] = 5;
    let n = c.handle_notification(BATTERY_LEVEL, &beacon);
    assert_eq!((n.filter_status, n.iv_index, n.response), (false, None, false));
    assert_eq!(c.iv(), 0);
    let n = c.handle_notification(PROXY_DATA_OUT, &beacon);
    assert_eq!((n.filter_status, n.iv_index, n.response), (false, Some(5), false));
    assert_eq!(c.iv(), 5);
    let n = c.handle_notification(PROXY_DATA_OUT, &[0x02, 0]);
    assert_eq!((n.filter_status, n.iv_index, n.response), (true, None, false));
    let n = c.handle_notification(PROXY_DATA_OUT, &[]);
    assert_eq!((n.filter_status, n.iv_index, n.response), (false, None, true));
    assert_eq!(c.iv(), 5);
}

#[test]
fn a_job_keeps_the_iv_index_that_it_started_with() {
    let mut c = session(0);
    let mut job = c.set_on_off(2, true);
    let mut beacon = vec![0u8; 23];
    beacon[0] = 1;
    beacon[1] = 1;
    beacon[14] = 5;
    c.handle_notification(PROXY_DATA_OUT, &beacon);
    let (_, pdu, _) = written(c.send_step(&mut job, SendEvent::Start));
    assert_eq!(opened(&pdu, 0).0, 2);
    let mut later = c.set_on_off(2, true);
    let (_, pdu, _) = written(c.send_step(&mut later, SendEvent::Start));
    assert_eq!(opened(&pdu, 5).0, 2);
}

#[test]
fn without_a_beacon_the_iv_index_is_zero() {
    let mut c = session(0);
    let mut beacon = vec![0u8; 23];
    beacon[0] = 1;
    beacon[1] = 1;
    beacon[14] = 9;
    c.handle_notification(PROXY_DATA_OUT, &beacon);
    assert_eq!(c.wait_for_beacon(true), 9);
    assert_eq!(c.wait_for_beacon(false), 0);
}

#[test]
fn status_replies() {
    assert_eq!(MeshController::status_reply(StatusEvent::Data(vec![1, 2])), Ok(vec![1, 2]));
    for (event, error, text) in [
        (StatusEvent::Lagged, StatusError::Lagged, "response channel lagged"),
        (StatusEvent::Closed, StatusError::Closed, "response channel closed"),
        (StatusEvent::TimedOut, StatusError::TimedOut, "status query timed out"),
    ] {
        assert_eq!(MeshController::status_reply(event), Err(error));
        assert_eq!(error.message(), text);
    }
}

#[test]
fn battery_readings() {
    assert_eq!(MeshController::read_battery(Some(vec![87, 1])), Some(87));
    assert_eq!(MeshController::read_battery(Some(vec![])), None);
    assert_eq!(MeshController::read_battery(None), None);
}
