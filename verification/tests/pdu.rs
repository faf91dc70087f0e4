use amble::crypto::{aes_ccm_decrypt, k2, k4};
use amble::pdu::{
    app_nonce, build_proxy_config_pdu, build_proxy_pdu, decrypt_network_pdu, net_nonce,
    opcode_bytes, parse_iv_index, proxy_nonce,
};

const NET_KEY: [u8; 16] = [0x11; 16];
const APP_KEY: [u8; 16] = [0x22; 16];

#[test]
fn opcodes_of_one_two_and_three_bytes() {
    assert_eq!(opcode_bytes(0x26), vec![0x26]);
    assert_eq!(opcode_bytes(0x7f), vec![0x7f]);
    assert_eq!(opcode_bytes(0x0182), vec![0x82, 0x01]);
    assert_eq!(opcode_bytes(0x112233c0), vec![0xc0, 0x33, 0x22]);
    assert_eq!(opcode_bytes(0x0211ff), vec![0xff, 0x11, 0x02]);
}

#[test]
fn nonces_are_laid_out() {
    assert_eq!(
        app_nonce(0x010203, 0x0405, 0x0607, 0x08090a0b),
        [1, 0, 1, 2, 3, 4, 5, 6, 7, 8, 9, 10, 11]
    );
    assert_eq!(
        net_nonce(1, 0x0a, 0x010203, 0x0405, 0x08090a0b),
        [0, 0x8a, 1, 2, 3, 4, 5, 0, 0, 8, 9, 10, 11]
    );
    assert_eq!(
        net_nonce(0, 0xff, 0x010203, 0x0405, 0x08090a0b),
        [0, 0x7f, 1, 2, 3, 4, 5, 0, 0, 8, 9, 10, 11]
    );
    assert_eq!(
        proxy_nonce(0x010203, 0x0405, 0x08090a0b),
        [3, 0, 1, 2, 3, 4, 5, 0, 0, 8, 9, 10, 11]
    );
}

#[test]
fn nonces_differ() {
    assert_ne!(net_nonce(0, 10, 5, 1, 0), net_nonce(0, 10, 6, 1, 0));
    assert_ne!(net_nonce(0, 10, 5, 1, 0), proxy_nonce(5, 1, 0));
    assert_ne!(proxy_nonce(5, 1, 0), proxy_nonce(5, 1, 1));
    assert_ne!(app_nonce(5, 1, 2, 0), app_nonce(5, 1, 3, 0));
    assert_eq!(proxy_nonce(5, 1, 0), proxy_nonce(0x1000005, 1, 0));
}

#[test]
fn a_message_reads_back() {
    let keys = k2(&NET_KEY);
    let aid = k4(&APP_KEY);
    let params = [9u8, 8, 7, 6, 5, 4, 3, 2, 1, 0];
    let pdu = build_proxy_pdu(
        &APP_KEY, aid, keys.nid, &keys.enc_key, &keys.priv_key, 0xabcdef, 1, 0xc000, 0x01020305,
        0x26, &params,
    );
    assert_eq!(pdu.len(), 30);
    assert_eq!(pdu[0], 0);
    assert_eq!(pdu[1], 0x80 | keys.nid);
    let (payload, seq, src) =
        decrypt_network_pdu(&pdu, &keys.enc_key, &keys.priv_key, 0x01020305).unwrap();
    assert_eq!(seq, 0xabcdef);
    assert_eq!(src, 1);
    assert_eq!(payload.len(), pdu.len() - 12);
    assert_eq!(payload[..3], [0xc0, 0x00, 0x40 | aid]);
    let access = aes_ccm_decrypt(
        &APP_KEY,
        &app_nonce(0xabcdef, 1, 0xc000, 0x01020305),
        &payload[3..],
        4,
    )
    .unwrap();
    assert_eq!(access[0], 0x26);
    assert_eq!(access[1..], params);
}

#[test]
fn another_iv_index_does_not_read_back() {
    let keys = k2(&NET_KEY);
    let pdu = build_proxy_pdu(
        &APP_KEY, 1, keys.nid, &keys.enc_key, &keys.priv_key, 7, 1, 2, 0, 0x26, &[1, 2, 3],
    );
    assert!(decrypt_network_pdu(&pdu, &keys.enc_key, &keys.priv_key, 1).is_none());
    assert!(decrypt_network_pdu(&pdu, &keys.enc_key, &keys.priv_key, 0).is_some());
}

#[test]
fn a_configuration_message_opens() {
    let keys = k2(&NET_KEY);
    let pdu = build_proxy_config_pdu(
        keys.nid, &keys.enc_key, &keys.priv_key, 42, 1, 4, 0x81, &[0x00, 0x01, 0xff, 0xff],
    );
    assert_eq!(pdu.len(), 19);
    assert_eq!(pdu[..2], [0x02, keys.nid]);
    let opened = aes_ccm_decrypt(&keys.enc_key, &proxy_nonce(42, 1, 4), &pdu[8..], 4).unwrap();
    assert_eq!(opened, vec![0, 0, 0x01, 0x00, 0x01, 0xff, 0xff]);
    assert!(decrypt_network_pdu(&pdu, &keys.enc_key, &keys.priv_key, 4).is_none());
    assert_eq!(parse_iv_index(&pdu), None);
}

#[test]
fn beacons_give_the_iv_index() {
    let mut beacon = vec![0u8; 23];
    beacon[0] = 0x01;
    beacon[1] = 0x01;
    beacon[11..15].copy_from_slice(&[0x12, 0x34, 0x56, 0x78]);
    assert_eq!(parse_iv_index(&beacon), Some(0x12345678));
    beacon[0] = 0xc1;
    assert_eq!(parse_iv_index(&beacon), Some(0x12345678));
    assert_eq!(parse_iv_index(&beacon[..22]), None);
    let mut other = beacon.clone();
    other[0] = 0x02;
    assert_eq!(parse_iv_index(&other), None);
    let mut unprovisioned = beacon.clone();
    unprovisioned[1] = 0x00;
    assert_eq!(parse_iv_index(&unprovisioned), None);
}

#[test]
fn short_or_foreign_pdus_are_nothing() {
    let keys = k2(&NET_KEY);
    assert!(decrypt_network_pdu(&[], &keys.enc_key, &keys.priv_key, 0).is_none());
    assert!(decrypt_network_pdu(&[0], &keys.enc_key, &keys.priv_key, 0).is_none());
    assert!(decrypt_network_pdu(&[0; 12], &keys.enc_key, &keys.priv_key, 0).is_none());
    assert!(decrypt_network_pdu(&[1; 13], &keys.enc_key, &keys.priv_key, 0).is_none());
    assert!(decrypt_network_pdu(&[0; 15], &keys.enc_key, &keys.priv_key, 0).is_none());
    assert!(decrypt_network_pdu(&[0; 30], &keys.enc_key, &keys.priv_key, 0).is_none());
}
