use amble::telink::{
    telink_brightness_payload, telink_cct_payload, telink_dim_curve_payload, telink_gel_payload,
    telink_hsi_payload, telink_payload, telink_read_data_payload, telink_rgbww_payload,
    telink_xy_payload,
};

fn checksum(p: &[u8; 10]) -> u8 {
    (p[1..].iter().map(|&b| b as u32).sum::<u32>() % 256) as u8
}

#[test]
fn command_payloads() {
    assert_eq!(telink_payload(0x8c, 1), [0x8d, 0, 0, 0, 0, 0, 0, 0, 0x01, 0x8c]);
    assert_eq!(telink_payload(0x8c, 0), [0x8c, 0, 0, 0, 0, 0, 0, 0, 0x00, 0x8c]);
    assert_eq!(telink_payload(0xcf, 1), [0xd0, 0, 0, 0, 0, 0, 0, 0, 0x01, 0xcf]);
    assert_eq!(telink_payload(0xff, 0xff), [0xfe, 0, 0, 0, 0, 0, 0, 0, 0xff, 0xff]);
    assert_eq!(telink_dim_curve_payload(2), [0x8a, 0, 0, 0, 0, 0, 0, 0, 0x02, 0x88]);
    assert_eq!(telink_read_data_payload(0x0a), [0x0a, 0, 0, 0, 0, 0, 0, 0, 0x00, 0x0a]);
}

#[test]
fn brightness_payloads() {
    assert_eq!(telink_brightness_payload(500), [0x0c, 0, 0, 0, 0, 0, 0, 0, 0x7d, 0x8f]);
    assert_eq!(telink_brightness_payload(1000), [0x89, 0, 0, 0, 0, 0, 0, 0, 0xfa, 0x8f]);
    assert_eq!(telink_brightness_payload(65535), telink_brightness_payload(1000));
    assert_eq!(telink_brightness_payload(3), [0x4f, 0, 0, 0, 0, 0, 0, 0xc0, 0x00, 0x8f]);
}

#[test]
fn cct_payloads() {
    assert_eq!(
        telink_cct_payload(5600, 800, 0),
        [0xae, 0, 0, 0, 0, 0x40, 0x01, 0x23, 0xc8, 0x82]
    );
    assert_eq!(
        telink_cct_payload(5600, 500, -10),
        [0x22, 0, 0, 0, 0, 0x00, 0x00, 0x23, 0x7d, 0x82]
    );
    assert_eq!(
        telink_cct_payload(10000, 1000, 10),
        [0xbc, 0, 0, 0, 0, 0x80, 0x82, 0x3e, 0xfa, 0x82]
    );
    assert_eq!(
        telink_cct_payload(10005, 1000, 10),
        [0x12, 0, 0, 0, 0, 0x84, 0x12, 0x00, 0xfa, 0x82]
    );
    assert_eq!(
        telink_cct_payload(12000, 1000, 117),
        [0x93, 0, 0, 0, 0, 0x84, 0x87, 0x0c, 0xfa, 0x82]
    );
    assert_eq!(
        telink_cct_payload(0, 1, -128),
        [0xd2, 0, 0, 0, 0, 0x00, 0x0b, 0x45, 0x00, 0x82]
    );
    assert_eq!(
        telink_cct_payload(65535, 999, 3),
        [0x9e, 0, 0, 0, 0, 0xa4, 0x81, 0xfe, 0xf9, 0x82]
    );
}

#[test]
fn hsi_payloads() {
    assert_eq!(
        telink_hsi_payload(240, 100, 750),
        [0xf3, 0, 0, 0, 0, 0x00, 0x19, 0x9e, 0xbb, 0x81]
    );
    assert_eq!(
        telink_hsi_payload(65535, 65535, 65535),
        [0xc1, 0, 0, 0, 0, 0x00, 0x19, 0x2d, 0xfa, 0x81]
    );
    assert_eq!(
        telink_hsi_payload(7, 3, 1),
        [0x61, 0, 0, 0, 0, 0xc0, 0xe0, 0x40, 0x00, 0x81]
    );
}

#[test]
fn rgbww_payloads() {
    assert_eq!(
        telink_rgbww_payload(1000, 500, 250, 125, 60, 333),
        [0x47, 0xd0, 0x54, 0x1f, 0x3c, 0xe8, 0x43, 0x1f, 0xfa, 0x84]
    );
    assert_eq!(
        telink_rgbww_payload(65535, 0, 65535, 0, 65535, 1),
        [0x28, 0x10, 0x00, 0x00, 0xe8, 0xa3, 0x0f, 0x00, 0xfa, 0x84]
    );
}

#[test]
fn gel_payloads() {
    assert_eq!(
        telink_gel_payload(3200, 77, 5, 1, 800),
        [0x17, 0, 0, 0, 0xb0, 0x89, 0x8a, 0x09, 0xc8, 0x83]
    );
    assert_eq!(
        telink_gel_payload(900, 1023, 15, 2, 3),
        [0xa1, 0, 0, 0, 0xe0, 0xff, 0x47, 0xf8, 0x00, 0x83]
    );
    assert_eq!(
        telink_gel_payload(65535, 5000, 255, 255, 65535),
        [0x3f, 0, 0, 0, 0x10, 0xf1, 0x8f, 0x32, 0xfa, 0x83]
    );
}

#[test]
fn xy_payloads() {
    assert_eq!(
        telink_xy_payload(0x1234, 0x0fed, 421),
        [0x67, 0, 0, 0, 0xb4, 0x3f, 0x34, 0x52, 0x69, 0x85]
    );
    assert_eq!(
        telink_xy_payload(65535, 65535, 65535),
        [0xb8, 0, 0, 0, 0xfc, 0xff, 0xff, 0x3f, 0xfa, 0x85]
    );
}

#[test]
fn every_payload_starts_with_its_checksum() {
    for p in [
        telink_payload(0x8c, 1),
        telink_brightness_payload(777),
        telink_cct_payload(3200, 640, 5),
        telink_hsi_payload(359, 99, 1000),
        telink_rgbww_payload(1, 2, 3, 4, 5, 6),
        telink_gel_payload(5600, 12, 3, 0, 250),
        telink_xy_payload(1, 2, 3),
    ] {
        assert_eq!(p[0], checksum(&p));
    }
}

#[test]
fn fields_read_back() {
    let p = telink_brightness_payload(643);
    assert_eq!((p[8] as u16) * 4 + (p[7] as u16) / 64, 643);
    let p = telink_hsi_payload(211, 37, 902);
    assert_eq!((p[8] as u16) * 4 + (p[7] as u16) / 64, 902);
    assert_eq!(((p[7] & 0x3f) as u16) * 8 + (p[6] as u16) / 32, 211);
    assert_eq!(((p[6] & 0x1f) as u16) * 4 + (p[5] as u16) / 64, 37);
    let p = telink_rgbww_payload(901, 802, 703, 604, 505, 406);
    let mut word = [0u8; 16];
    word[..10].copy_from_slice(&p);
    let n = u128::from_le_bytes(word);
    let field = |shift: u32| ((n >> shift) & 0x3ff) as u16;
    assert_eq!(
        [field(62), field(52), field(42), field(22), field(32), field(12)],
        [901, 802, 703, 604, 505, 406]
    );
}

#[test]
fn every_documented_shift_is_its_own() {
    assert_eq!(telink_cct_payload(5600, 800, 50), [0xf4, 0, 0, 0, 0, 0x80, 0x07, 0x23, 0xc8, 0x82]);
    assert_eq!(telink_cct_payload(5600, 800, -50), [0x78, 0, 0, 0, 0, 0x00, 0x0b, 0x23, 0xc8, 0x82]);
    assert_eq!(telink_cct_payload(5600, 800, 127), telink_cct_payload(5600, 800, 50));
    assert_eq!(telink_cct_payload(5600, 800, -128), telink_cct_payload(5600, 800, -50));
    for kelvin in [2500u16, 5600, 10000, 10010] {
        let payloads: Vec<[u8; 10]> =
            (-50i8..=50).map(|gm| telink_cct_payload(kelvin, 800, gm)).collect();
        for i in 0..payloads.len() {
            for j in 0..i {
                assert_ne!(payloads[i], payloads[j]);
            }
        }
    }
}
