use amble::crypto::{
    aes_ccm_decrypt, aes_ccm_encrypt, aes_cmac, aes_ecb_block, cmac_shift_left, compute_pecb, k2,
    k4, s1,
};

fn bytes(text: &str) -> Vec<u8> {
    hex::decode(text).unwrap()
}

fn block(text: &str) -> [u8; 16] {
    bytes(text).try_into().unwrap()
}

#[test]
fn aes_encrypts_a_block() {
    let key = block("2b7e151628aed2a6abf7158809cf4f3c");
    assert_eq!(
        aes_ecb_block(&key, &block("6bc1bee22e409f96e93d7e117393172a")),
        block("3ad77bb40d7a3660a89ecaf32466ef97")
    );
    assert_eq!(aes_ecb_block(&key, &[0; 16]), block("7df76b0c1ab899b33e42f047b91b546f"));
}

#[test]
fn cmac_of_the_rfc_examples() {
    let key = block("2b7e151628aed2a6abf7158809cf4f3c");
    let message = bytes(
        "6bc1bee22e409f96e93d7e117393172aae2d8a571e03ac9c9eb76fac45af8e51\
         30c81c46a35ce411e5fbc1191a0a52eff69f2445df4f9b17ad2b417be66c3710",
    );
    assert_eq!(aes_cmac(&key, &[]), block("bb1d6929e95937287fa37d129b756746"));
    assert_eq!(aes_cmac(&key, &message[..16]), block("070a16b46b4d4144f79bdd9dd04a287c"));
    assert_eq!(aes_cmac(&key, &message[..40]), block("dfa66747de9ae63030ca32611497c827"));
    assert_eq!(aes_cmac(&key, &message), block("51f0bebf7e3b9d92fc49741779363cfe"));
}

#[test]
fn subkeys_double() {
    let l = block("7df76b0c1ab899b33e42f047b91b546f");
    let k1 = cmac_shift_left(&l, 0);
    assert_eq!(k1, block("fbeed618357133667c85e08f7236a8de"));
    assert_eq!(cmac_shift_left(&k1, 0x87), block("f7ddac306ae266ccf90bc11ee46d513b"));
}

#[test]
fn shifting_left_doubles_the_number() {
    let b = block("0123456789abcdef0123456789abcdef");
    let n = u128::from_be_bytes(b);
    assert_eq!(u128::from_be_bytes(cmac_shift_left(&b, 0)), n.wrapping_mul(2));
    let c = block("f123456789abcdef0123456789abcdef");
    let m = u128::from_be_bytes(c);
    assert_eq!(u128::from_be_bytes(cmac_shift_left(&c, 0)), m.wrapping_mul(2));
}

#[test]
fn salt_of_the_mesh_profile() {
    assert_eq!(s1(b"test"), block("b73cefbd641ef2ea598c2b6efb62f79c"));
}

#[test]
fn network_key_derivation_of_the_mesh_profile() {
    let d = k2(&block("f7a2a44f8e8a8029064f173ddc1e2b00"));
    assert_eq!(d.nid, 0x7f);
    assert_eq!(d.enc_key, block("9f589181a0f50de73c8070c7a6d27f46"));
    assert_eq!(d.priv_key, block("4c715bd4a64b938f99b453351653124f"));

    let d = k2(&block("7dd7364cd842ad18c17c2b820c84c3d6"));
    assert_eq!(d.nid, 0x68);
    assert_eq!(d.enc_key, block("0953fa93e7caac9638f58820220a398e"));
    assert_eq!(d.priv_key, block("8b84eedec100067d670971dd2aa700cf"));
}

#[test]
fn application_key_identifier_of_the_mesh_profile() {
    assert_eq!(k4(&block("3216d1509884b533248541792b877f98")), 0x38);
    assert_eq!(k4(&block("63964771734fbd76e3b40519d1d94a48")), 0x26);
}

#[test]
fn privacy_mask_of_the_mesh_profile() {
    let key = block("8b84eedec100067d670971dd2aa700cf");
    let random: [u8; 7] = bytes("b5e5bfdacbaf6c").try_into().unwrap();
    let mask = compute_pecb(&key, 0x12345678, &random);
    assert_eq!(mask[..6], bytes("6ca487507564")[..]);
}

#[test]
fn ccm_reads_back() {
    let key = block("000102030405060708090a0b0c0d0e0f");
    let nonce = [7u8; 13];
    for len in [0usize, 1, 15, 16, 17, 40] {
        let plain: Vec<u8> = (0..len as u8).collect();
        let sealed = aes_ccm_encrypt(&key, &nonce, &plain, 4);
        assert_eq!(sealed.len(), len + 4);
        assert_eq!(aes_ccm_decrypt(&key, &nonce, &sealed, 4), Some(plain));
    }
}

#[test]
fn ccm_refuses_what_was_changed() {
    let key = block("000102030405060708090a0b0c0d0e0f");
    let nonce = [7u8; 13];
    let sealed = aes_ccm_encrypt(&key, &nonce, b"light", 4);
    for i in 0..sealed.len() {
        let mut changed = sealed.clone();
        changed[i] ^= 1;
        assert_eq!(aes_ccm_decrypt(&key, &nonce, &changed, 4), None);
    }
    assert_eq!(aes_ccm_decrypt(&key, &[8u8; 13], &sealed, 4), None);
    assert_eq!(aes_ccm_decrypt(&key, &nonce, &sealed[..3], 4), None);
    assert_eq!(aes_ccm_decrypt(&key, &nonce, &[], 4), None);
    assert_eq!(aes_ccm_decrypt(&key, &nonce, &vec![0u8; 65540], 4), None);
}

#[test]
fn ccm_takes_the_longest_plaintext() {
    let key = [1u8; 16];
    let nonce = [2u8; 13];
    let plain = vec![3u8; 65535];
    let sealed = aes_ccm_encrypt(&key, &nonce, &plain, 4);
    assert_eq!(sealed.len(), 65539);
    assert_eq!(aes_ccm_decrypt(&key, &nonce, &sealed, 4), Some(plain));
}

#[test]
fn ccm_of_the_mesh_profile() {
    // A control message: the network payload is authenticated with eight bytes there, so only
    // the ciphertext in front of the check value is compared.
    let key = block("0953fa93e7caac9638f58820220a398e");
    let nonce: [u8; 13] = bytes("00800000011201000012345678").try_into().unwrap();
    let sealed = aes_ccm_encrypt(&key, &nonce, &bytes("fffd034b50057e400000010000"), 4);
    assert_eq!(sealed[..13], bytes("b5e5bfdacbaf6cb7fb6bff871f")[..]);
}
