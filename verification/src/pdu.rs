//! Mesh proxy PDUs: what is written to and read from the proxy characteristics.

use crate::crypto::{
    aes128, aes_ccm_decrypt, aes_ccm_encrypt, ccm_open, ccm_seal, compute_pecb, law_privacy_mask,
    opened, pecb, CCM_MAX_LEN, MIC_LEN,
};
use crate::octets::{
    append_bytes, be16, be24, be32, be_bytes, be_value, law_four_bytes, law_three_bytes, law_two_bytes,
    le_bytes, lemma_be_bytes_injective,
    lemma_be_bytes_len, lemma_be_value_of_bytes, lemma_xor_undoes, xor_bytes,
};
use vstd::arithmetic::power::pow;
use vstd::prelude::*;
use vstd::slice::slice_subrange;

verus! {

/// The unicast address of this node.
pub const LOCAL_ADDRESS: u16 = 0x0001;

/// The time to live of every message.
pub const DEFAULT_TTL: u8 = 10;

/// The group address of all lights.
pub const GROUP_ALL: u16 = 0xc000;

/// The address of all nodes.
pub const ALL_NODES: u16 = 0xffff;

pub const PROXY_TYPE_NETWORK: u8 = 0x00;

pub const PROXY_TYPE_BEACON: u8 = 0x01;

pub const PROXY_TYPE_PROXY_CONFIG: u8 = 0x02;

pub const PROXY_CFG_SET_FILTER_TYPE: u8 = 0x00;

pub const PROXY_CFG_ADD_ADDRESSES: u8 = 0x01;

pub const PROXY_FILTER_WHITELIST: u8 = 0x00;

/// The number of sequence numbers: they have 24 bits.
pub const SEQ_MODULUS: u32 = 0x100_0000;

/// How many bytes an opcode takes, told by its first byte.
pub open spec fn opcode_len(opcode: u32) -> nat {
    if opcode % 256 < 0x80 {
        1
    } else if opcode % 256 < 0xc0 {
        2
    } else {
        3
    }
}

/// An access message: the opcode, first byte in its low bits, and the parameters.
pub open spec fn access_pdu(opcode: u32, params: Seq<u8>) -> Seq<u8> {
    le_bytes(opcode as nat, opcode_len(opcode)) + params
}

/// The nonce of the application key.
pub open spec fn app_nonce_bytes(seq: u32, src: u16, dst: u16, iv_index: u32) -> Seq<u8> {
    seq![0x01u8, 0x00] + be_bytes(seq as nat, 3) + be_bytes(src as nat, 2) + be_bytes(dst as nat, 2)
        + be_bytes(iv_index as nat, 4)
}

/// A nonce whose sixth and seventh bytes are the source and which names no destination.
pub open spec fn header_nonce(
    kind: u8,
    ctl_ttl: u8,
    seq_bytes: Seq<u8>,
    src_bytes: Seq<u8>,
    iv_index: u32,
) -> Seq<u8> {
    seq![kind, ctl_ttl] + seq_bytes + src_bytes + seq![0u8, 0] + be_bytes(iv_index as nat, 4)
}

/// The control bit and the time to live in one byte.
pub open spec fn ctl_ttl(ctl: u8, ttl: u8) -> u8 {
    ((ctl % 2) * 128 + ttl % 128) as u8
}

/// The nonce of the network encryption key.
pub open spec fn net_nonce_bytes(ctl: u8, ttl: u8, seq: u32, src: u16, iv_index: u32) -> Seq<u8> {
    header_nonce(
        0x00,
        ctl_ttl(ctl, ttl),
        be_bytes(seq as nat, 3),
        be_bytes(src as nat, 2),
        iv_index,
    )
}

/// The nonce of the network encryption key for proxy configuration messages.
pub open spec fn proxy_nonce_bytes(seq: u32, src: u16, iv_index: u32) -> Seq<u8> {
    header_nonce(0x03, 0x00, be_bytes(seq as nat, 3), be_bytes(src as nat, 2), iv_index)
}

/// A network header: the control bit and the time to live, the sequence number, the source.
pub open spec fn header(ctl_ttl: u8, seq: u32, src: u16) -> Seq<u8> {
    seq![ctl_ttl] + be_bytes(seq as nat, 3) + be_bytes(src as nat, 2)
}

/// A proxy PDU that carries one network PDU: the type, the low bit of the IV index and the
/// network identifier, the header masked with the privacy mask, and the encrypted rest.
pub open spec fn network_pdu(
    pdu_type: u8,
    nid: u8,
    priv_key: Seq<u8>,
    iv_index: u32,
    hdr: Seq<u8>,
    encrypted: Seq<u8>,
) -> Seq<u8> {
    seq![pdu_type, ((iv_index % 2) * 128 + nid % 128) as u8] + xor_bytes(
        hdr,
        pecb(priv_key, iv_index, encrypted.take(7)),
    ) + encrypted
}

/// An access message encrypted with the application key.
pub open spec fn upper_transport(
    app_key: Seq<u8>,
    seq: u32,
    src: u16,
    dst: u16,
    iv_index: u32,
    opcode: u32,
    params: Seq<u8>,
) -> Seq<u8> {
    ccm_seal(app_key, app_nonce_bytes(seq, src, dst, iv_index), access_pdu(opcode, params))
}

/// What the network layer encrypts: the destination, the application key identifier and the
/// encrypted access message.
pub open spec fn network_payload(dst: u16, aid: u8, upper: Seq<u8>) -> Seq<u8> {
    be_bytes(dst as nat, 2) + (seq![(0x40 + aid % 64) as u8] + upper)
}

/// The PDU of [`build_proxy_pdu`].
pub open spec fn proxy_pdu(
    app_key: Seq<u8>,
    aid: u8,
    nid: u8,
    enc_key: Seq<u8>,
    priv_key: Seq<u8>,
    seq: u32,
    src: u16,
    dst: u16,
    iv_index: u32,
    opcode: u32,
    params: Seq<u8>,
) -> Seq<u8> {
    let upper = upper_transport(app_key, seq, src, dst, iv_index, opcode, params);
    let encrypted = ccm_seal(
        enc_key,
        net_nonce_bytes(0, DEFAULT_TTL, seq, src, iv_index),
        network_payload(dst, aid, upper),
    );
    network_pdu(
        PROXY_TYPE_NETWORK,
        nid,
        priv_key,
        iv_index,
        header(DEFAULT_TTL, seq, src),
        encrypted,
    )
}

/// What the network layer encrypts of a proxy configuration message.
pub open spec fn config_payload(opcode: u8, params: Seq<u8>) -> Seq<u8> {
    seq![0u8, 0, opcode % 128] + params
}

/// The PDU of [`build_proxy_config_pdu`].
pub open spec fn proxy_config_pdu(
    nid: u8,
    enc_key: Seq<u8>,
    priv_key: Seq<u8>,
    seq: u32,
    src: u16,
    iv_index: u32,
    opcode: u8,
    params: Seq<u8>,
) -> Seq<u8> {
    let encrypted = ccm_seal(
        enc_key,
        proxy_nonce_bytes(seq, src, iv_index),
        config_payload(opcode, params),
    );
    network_pdu(PROXY_TYPE_PROXY_CONFIG, nid, priv_key, iv_index, header(0x80, seq, src), encrypted)
}

/// The IV index in a secure network beacon, where `data` is one.
pub open spec fn beacon_iv_index(data: Seq<u8>) -> Option<u32> {
    if data.len() >= 23 && data[0] % 64 == PROXY_TYPE_BEACON && data[1] == 0x01 {
        Some(be_value(data.subrange(11, 15)) as u32)
    } else {
        None
    }
}

/// The unmasked header of a received network PDU.
pub open spec fn received_header(data: Seq<u8>, priv_key: Seq<u8>, iv_index: u32) -> Seq<u8> {
    xor_bytes(data.subrange(2, 8), pecb(priv_key, iv_index, data.skip(8).take(7)))
}

/// The nonce that the header of a received network PDU amounts to.
pub open spec fn received_nonce(data: Seq<u8>, priv_key: Seq<u8>, iv_index: u32) -> Seq<u8> {
    let hdr = received_header(data, priv_key, iv_index);
    header_nonce(0x00, hdr[0], hdr.subrange(1, 4), hdr.subrange(4, 6), iv_index)
}

/// What a received network PDU holds: the decrypted payload, the sequence number, the source.
pub open spec fn network_contents(
    data: Seq<u8>,
    enc_key: Seq<u8>,
    priv_key: Seq<u8>,
    iv_index: u32,
) -> Option<(Seq<u8>, u32, u16)> {
    if data.len() < 13 || data[0] % 64 != PROXY_TYPE_NETWORK {
        None
    } else {
        let hdr = received_header(data, priv_key, iv_index);
        match opened(enc_key, received_nonce(data, priv_key, iv_index), data.skip(8)) {
            Some(payload) => Some(
                (
                    payload,
                    be_value(hdr.subrange(1, 4)) as u32,
                    be_value(hdr.subrange(4, 6)) as u16,
                ),
            ),
            None => None,
        }
    }
}

/// The bytes of an opcode.
pub fn opcode_bytes(opcode: u32) -> (r: Vec<u8>)
    ensures
        r@ == le_bytes(opcode as nat, opcode_len(opcode)),
{
    let first: u8 = (opcode % 256) as u8;
    let mut r: Vec<u8> = Vec::new();
    r.push(first);
    if first >= 0x80 {
        r.push((opcode / 256 % 256) as u8);
        if first >= 0xc0 {
            r.push((opcode / 256 / 256 % 256) as u8);
        }
    }
    proof {
        reveal_with_fuel(le_bytes, 4);
        assert(r@ =~= le_bytes(opcode as nat, opcode_len(opcode)));
    }
    r
}

/// The nonce of the application key.
pub fn app_nonce(seq: u32, src: u16, dst: u16, iv_index: u32) -> (r: [u8; 13])
    ensures
        r@ == app_nonce_bytes(seq, src, dst, iv_index),
{
    let q = be24(seq);
    let s = be16(src);
    let d = be16(dst);
    let v = be32(iv_index);
    let r = [
        0x01, 0x00, q[0], q[1], q[2], s[0], s[1], d[0], d[1], v[0], v[1], v[2], v[3],
    ];
    proof {
        lemma_be_bytes_len(seq as nat, 3);
        lemma_be_bytes_len(src as nat, 2);
        lemma_be_bytes_len(dst as nat, 2);
        lemma_be_bytes_len(iv_index as nat, 4);
        assert(r@ =~= app_nonce_bytes(seq, src, dst, iv_index));
    }
    r
}

/// The nonce made of the parts of a network header.
fn nonce_of(kind: u8, ctl_ttl: u8, q: &[u8; 3], s: &[u8; 2], iv_index: u32) -> (r: [u8; 13])
    ensures
        r@ == header_nonce(kind, ctl_ttl, q@, s@, iv_index),
{
    let v = be32(iv_index);
    let r = [kind, ctl_ttl, q[0], q[1], q[2], s[0], s[1], 0, 0, v[0], v[1], v[2], v[3]];
    proof {
        lemma_be_bytes_len(iv_index as nat, 4);
        assert(r@ =~= header_nonce(kind, ctl_ttl, q@, s@, iv_index));
    }
    r
}

/// The nonce of the network encryption key.
pub fn net_nonce(ctl: u8, ttl: u8, seq: u32, src: u16, iv_index: u32) -> (r: [u8; 13])
    ensures
        r@ == net_nonce_bytes(ctl, ttl, seq, src, iv_index),
{
    nonce_of(0x00, ctl % 2 * 128 + ttl % 128, &be24(seq), &be16(src), iv_index)
}

/// The nonce of the network encryption key for proxy configuration messages.
pub fn proxy_nonce(seq: u32, src: u16, iv_index: u32) -> (r: [u8; 13])
    ensures
        r@ == proxy_nonce_bytes(seq, src, iv_index),
{
    nonce_of(0x03, 0x00, &be24(seq), &be16(src), iv_index)
}

/// The first seven bytes of `encrypted`.
fn privacy_random(encrypted: &[u8]) -> (r: [u8; 7])
    requires
        encrypted@.len() >= 7,
    ensures
        r@ == encrypted@.take(7),
{
    let r = [
        encrypted[0],
        encrypted[1],
        encrypted[2],
        encrypted[3],
        encrypted[4],
        encrypted[5],
        encrypted[6],
    ];
    assert(r@ =~= encrypted@.take(7));
    r
}

/// Masks or unmasks a network header.
fn mask_header(hdr: &[u8; 6], mask: &[u8; 16]) -> (r: [u8; 6])
    ensures
        r@ == xor_bytes(hdr@, mask@),
{
    let r = [
        hdr[0] ^ mask[0],
        hdr[1] ^ mask[1],
        hdr[2] ^ mask[2],
        hdr[3] ^ mask[3],
        hdr[4] ^ mask[4],
        hdr[5] ^ mask[5],
    ];
    assert(r@ =~= xor_bytes(hdr@, mask@));
    r
}

/// Masks the header of a network PDU and puts the parts together.
fn assemble(
    pdu_type: u8,
    nid: u8,
    priv_key: &[u8; 16],
    iv_index: u32,
    ctl_ttl: u8,
    seq: u32,
    src: u16,
    encrypted: &[u8],
) -> (r: Vec<u8>)
    requires
        encrypted@.len() >= 7,
    ensures
        r@ == network_pdu(
            pdu_type,
            nid,
            priv_key@,
            iv_index,
            header(ctl_ttl, seq, src),
            encrypted@,
        ),
        r@.len() == encrypted@.len() + 8,
{
    let mask = compute_pecb(priv_key, iv_index, &privacy_random(encrypted));
    let q = be24(seq);
    let s = be16(src);
    let hdr = [ctl_ttl, q[0], q[1], q[2], s[0], s[1]];
    proof {
        lemma_be_bytes_len(seq as nat, 3);
        lemma_be_bytes_len(src as nat, 2);
        assert(hdr@ =~= header(ctl_ttl, seq, src));
    }
    let obfuscated = mask_header(&hdr, &mask);
    let mut r: Vec<u8> = Vec::new();
    r.push(pdu_type);
    r.push((iv_index % 2) as u8 * 128 + nid % 128);
    append_bytes(&mut r, &obfuscated);
    append_bytes(&mut r, encrypted);
    assert(r@ =~= network_pdu(
        pdu_type,
        nid,
        priv_key@,
        iv_index,
        header(ctl_ttl, seq, src),
        encrypted@,
    ));
    r
}

/// What a network PDU made with the right keys and an encrypted part that can be opened holds.
proof fn lemma_contents_of_pdu(
    nid: u8,
    enc_key: Seq<u8>,
    priv_key: Seq<u8>,
    ttl: u8,
    seq: u32,
    src: u16,
    iv_index: u32,
    encrypted: Seq<u8>,
    payload: Seq<u8>,
)
    requires
        ttl < 128,
        7 <= encrypted.len() <= CCM_MAX_LEN + 4,
        ccm_open(enc_key, net_nonce_bytes(0, ttl, seq, src, iv_index), encrypted) == Some(payload),
    ensures
        network_contents(
            network_pdu(
                PROXY_TYPE_NETWORK,
                nid,
                priv_key,
                iv_index,
                header(ttl, seq, src),
                encrypted,
            ),
            enc_key,
            priv_key,
            iv_index,
        ) == Some((payload, seq % SEQ_MODULUS, src)),
{
    let hdr = header(ttl, seq, src);
    let mask = pecb(priv_key, iv_index, encrypted.take(7));
    let data = network_pdu(PROXY_TYPE_NETWORK, nid, priv_key, iv_index, hdr, encrypted);
    lemma_be_bytes_len(seq as nat, 3);
    lemma_be_bytes_len(src as nat, 2);
    assert(hdr.len() == 6);
    assert(data.skip(8) =~= encrypted);
    assert(data.subrange(2, 8) =~= xor_bytes(hdr, mask));
    lemma_xor_undoes(hdr, mask);
    assert(hdr.subrange(1, 4) =~= be_bytes(seq as nat, 3));
    assert(hdr.subrange(4, 6) =~= be_bytes(src as nat, 2));
    lemma_low_bytes(seq);
    assert(pow(256, 2) == 0x1_0000) by {
        reveal_with_fuel(pow, 3);
    }
    assert(pow(256, 3) == SEQ_MODULUS) by {
        reveal_with_fuel(pow, 4);
    }
    lemma_be_value_of_bytes((seq % SEQ_MODULUS) as nat, 3);
    lemma_be_value_of_bytes(src as nat, 2);
}

/// Only the lowest 24 bits of a sequence number are sent.
proof fn lemma_low_bytes(seq: u32)
    ensures
        be_bytes(seq as nat, 3) == be_bytes((seq % SEQ_MODULUS) as nat, 3),
{
    let n = seq as nat;
    let m = (seq % SEQ_MODULUS) as nat;
    let k = n / 0x100_0000;
    assert(n == m + 0x100_0000 * k);
    assert(m % 256 == n % 256);
    assert(n / 256 == m / 256 + 0x1_0000 * k);
    assert((m / 256) % 256 == (n / 256) % 256);
    assert(n / 256 / 256 == m / 256 / 256 + 0x100 * k);
    assert((m / 256 / 256) % 256 == (n / 256 / 256) % 256);
    lemma_three_bytes(m);
    lemma_three_bytes(n);
}

proof fn lemma_three_bytes(n: nat)
    ensures
        be_bytes(n, 3) == seq![
            ((n / 256 / 256) % 256) as u8,
            ((n / 256) % 256) as u8,
            (n % 256) as u8,
        ],
{
    reveal_with_fuel(be_bytes, 4);
    assert(be_bytes(n, 3) =~= seq![
        ((n / 256 / 256) % 256) as u8,
        ((n / 256) % 256) as u8,
        (n % 256) as u8,
    ]);
}

/// Builds the proxy PDU of an access message to `dst`.
///
/// The PDU reads back: [`network_contents`] finds the payload, the sequence number and the
/// source in it, and the application key opens the access message in the payload.
pub fn build_proxy_pdu(
    app_key: &[u8; 16],
    aid: u8,
    nid: u8,
    enc_key: &[u8; 16],
    priv_key: &[u8; 16],
    seq: u32,
    src: u16,
    dst: u16,
    iv_index: u32,
    opcode: u32,
    params: &[u8],
) -> (r: Vec<u8>)
    requires
        opcode_len(opcode) + params@.len() + 7 <= CCM_MAX_LEN,
    ensures
        r@ == proxy_pdu(
            app_key@,
            aid,
            nid,
            enc_key@,
            priv_key@,
            seq,
            src,
            dst,
            iv_index,
            opcode,
            params@,
        ),
        r@.len() == opcode_len(opcode) + params@.len() + 19,
        ({
            let upper = upper_transport(app_key@, seq, src, dst, iv_index, opcode, params@);
            &&& network_contents(r@, enc_key@, priv_key@, iv_index) == Some(
                (network_payload(dst, aid, upper), seq % SEQ_MODULUS, src),
            )
            &&& ccm_open(app_key@, app_nonce_bytes(seq, src, dst, iv_index), upper) == Some(
                access_pdu(opcode, params@),
            )
        }),
{
    let mut access = opcode_bytes(opcode);
    append_bytes(&mut access, params);
    proof {
        crate::octets::lemma_le_bytes_len(opcode as nat, opcode_len(opcode));
        lemma_be_bytes_len(dst as nat, 2);
    }
    let upper = aes_ccm_encrypt(
        app_key,
        &app_nonce(seq, src, dst, iv_index),
        access.as_slice(),
        MIC_LEN,
    );

    let mut net_payload: Vec<u8> = Vec::new();
    append_bytes(&mut net_payload, &be16(dst));
    net_payload.push(0x40 + aid % 64);
    append_bytes(&mut net_payload, upper.as_slice());
    assert(net_payload@ =~= network_payload(dst, aid, upper@));

    let encrypted = aes_ccm_encrypt(
        enc_key,
        &net_nonce(0, DEFAULT_TTL, seq, src, iv_index),
        net_payload.as_slice(),
        MIC_LEN,
    );
    proof {
        lemma_contents_of_pdu(
            nid,
            enc_key@,
            priv_key@,
            DEFAULT_TTL,
            seq,
            src,
            iv_index,
            encrypted@,
            net_payload@,
        );
    }
    assemble(
        PROXY_TYPE_NETWORK,
        nid,
        priv_key,
        iv_index,
        DEFAULT_TTL,
        seq,
        src,
        encrypted.as_slice(),
    )
}

/// Builds the proxy PDU of a proxy configuration message.
pub fn build_proxy_config_pdu(
    nid: u8,
    enc_key: &[u8; 16],
    priv_key: &[u8; 16],
    seq: u32,
    src: u16,
    iv_index: u32,
    opcode: u8,
    params: &[u8],
) -> (r: Vec<u8>)
    requires
        params@.len() + 3 <= CCM_MAX_LEN,
    ensures
        r@ == proxy_config_pdu(nid, enc_key@, priv_key@, seq, src, iv_index, opcode, params@),
        r@.len() == params@.len() + 15,
        ccm_open(enc_key@, proxy_nonce_bytes(seq, src, iv_index), r@.skip(8)) == Some(
            config_payload(opcode, params@),
        ),
{
    let mut net_payload: Vec<u8> = Vec::new();
    net_payload.push(0x00);
    net_payload.push(0x00);
    net_payload.push(opcode % 128);
    append_bytes(&mut net_payload, params);
    assert(net_payload@ =~= config_payload(opcode, params@));

    let encrypted = aes_ccm_encrypt(
        enc_key,
        &proxy_nonce(seq, src, iv_index),
        net_payload.as_slice(),
        MIC_LEN,
    );
    let r = assemble(
        PROXY_TYPE_PROXY_CONFIG,
        nid,
        priv_key,
        iv_index,
        0x80,
        seq,
        src,
        encrypted.as_slice(),
    );
    proof {
        lemma_be_bytes_len(seq as nat, 3);
        lemma_be_bytes_len(src as nat, 2);
        assert(r@.skip(8) =~= encrypted@);
    }
    r
}

/// Reads the IV index from a secure network beacon.
pub fn parse_iv_index(data: &[u8]) -> (r: Option<u32>)
    ensures
        r == beacon_iv_index(data@),
{
    if data.len() < 23 {
        return None;
    }
    if data[0] % 64 != PROXY_TYPE_BEACON {
        return None;
    }
    if data[1] != 0x01 {
        return None;
    }
    let iv: u32 = ((data[11] as u32 * 256 + data[12] as u32) * 256 + data[13] as u32) * 256
        + data[14] as u32;
    proof {
        let field = data@.subrange(11, 15);
        reveal_with_fuel(be_value, 5);
        assert(field.drop_last().drop_last().drop_last().drop_last() =~= Seq::<u8>::empty());
        assert(iv == be_value(field));
    }
    Some(iv)
}

/// Unmasks and decrypts a received network PDU.
///
/// What is handed out is authentic: encrypting it gives the bytes that were received. A PDU of
/// 13 or 14 bytes is too short to hold the bytes that the privacy mask is made of.
pub fn decrypt_network_pdu(
    data: &[u8],
    enc_key: &[u8; 16],
    priv_key: &[u8; 16],
    iv_index: u32,
) -> (r: Option<(Vec<u8>, u32, u16)>)
    requires
        13 <= data@.len() <= 14 ==> data@[0] % 64 != PROXY_TYPE_NETWORK,
    ensures
        r is Some <==> network_contents(data@, enc_key@, priv_key@, iv_index) is Some,
        r matches Some((payload, seq, src)) ==> {
            &&& network_contents(data@, enc_key@, priv_key@, iv_index) == Some(
                (payload@, seq, src),
            )
            &&& data@.skip(8) == ccm_seal(
                enc_key@,
                received_nonce(data@, priv_key@, iv_index),
                payload@,
            )
            &&& payload@.len() == data@.len() - 12
        },
{
    if data.len() < 2 {
        return None;
    }
    if data[0] % 64 != PROXY_TYPE_NETWORK {
        return None;
    }
    if data.len() < 13 {
        return None;
    }
    let encrypted = slice_subrange(data, 8, data.len());
    assert(encrypted@ =~= data@.skip(8));
    let mask = compute_pecb(priv_key, iv_index, &privacy_random(encrypted));
    let masked = [data[2], data[3], data[4], data[5], data[6], data[7]];
    assert(masked@ =~= data@.subrange(2, 8));
    let hdr = mask_header(&masked, &mask);

    let q = [hdr[1], hdr[2], hdr[3]];
    let s = [hdr[4], hdr[5]];
    let seq: u32 = (hdr[1] as u32 * 256 + hdr[2] as u32) * 256 + hdr[3] as u32;
    let src: u16 = hdr[4] as u16 * 256 + hdr[5] as u16;
    proof {
        assert(q@ =~= hdr@.subrange(1, 4));
        assert(s@ =~= hdr@.subrange(4, 6));
        reveal_with_fuel(be_value, 4);
        assert(q@.drop_last().drop_last().drop_last() =~= Seq::<u8>::empty());
        assert(s@.drop_last().drop_last() =~= Seq::<u8>::empty());
        assert(be_value(q@) == seq);
        assert(be_value(s@) == src);
    }
    let nonce = nonce_of(0x00, hdr[0], &q, &s, iv_index);
    match aes_ccm_decrypt(enc_key, &nonce, encrypted, MIC_LEN) {
        Some(payload) => Some((payload, seq, src)),
        None => None,
    }
}

/// A nonce of one kind is never a nonce of another kind.
pub proof fn law_nonce_kinds_apart(
    seq1: u32,
    src1: u16,
    dst: u16,
    iv1: u32,
    ctl: u8,
    ttl: u8,
    seq2: u32,
    src2: u16,
    iv2: u32,
)
    ensures
        app_nonce_bytes(seq1, src1, dst, iv1) != net_nonce_bytes(ctl, ttl, seq2, src2, iv2),
        app_nonce_bytes(seq1, src1, dst, iv1) != proxy_nonce_bytes(seq2, src2, iv2),
        net_nonce_bytes(ctl, ttl, seq1, src1, iv1) != proxy_nonce_bytes(seq2, src2, iv2),
{
    assert(app_nonce_bytes(seq1, src1, dst, iv1)[0] == 0x01);
    assert(net_nonce_bytes(ctl, ttl, seq1, src1, iv1)[0] == 0x00);
    assert(net_nonce_bytes(ctl, ttl, seq2, src2, iv2)[0] == 0x00);
    assert(proxy_nonce_bytes(seq2, src2, iv2)[0] == 0x03);
}

proof fn lemma_header_nonce_parts(
    kind: u8,
    c1: u8,
    seq1: u32,
    src1: u16,
    iv1: u32,
    c2: u8,
    seq2: u32,
    src2: u16,
    iv2: u32,
)
    requires
        header_nonce(kind, c1, be_bytes(seq1 as nat, 3), be_bytes(src1 as nat, 2), iv1)
            == header_nonce(kind, c2, be_bytes(seq2 as nat, 3), be_bytes(src2 as nat, 2), iv2),
    ensures
        c1 == c2,
        seq1 % SEQ_MODULUS == seq2 % SEQ_MODULUS,
        src1 == src2,
        iv1 == iv2,
{
    let n1 = header_nonce(kind, c1, be_bytes(seq1 as nat, 3), be_bytes(src1 as nat, 2), iv1);
    let n2 = header_nonce(kind, c2, be_bytes(seq2 as nat, 3), be_bytes(src2 as nat, 2), iv2);
    lemma_number_lens(seq1, src1, iv1);
    lemma_number_lens(seq2, src2, iv2);
    assert(n1[1] == c1 && n2[1] == c2);
    assert(n1.subrange(2, 5) =~= be_bytes(seq1 as nat, 3));
    assert(n2.subrange(2, 5) =~= be_bytes(seq2 as nat, 3));
    assert(n1.subrange(5, 7) =~= be_bytes(src1 as nat, 2));
    assert(n2.subrange(5, 7) =~= be_bytes(src2 as nat, 2));
    assert(n1.subrange(9, 13) =~= be_bytes(iv1 as nat, 4));
    assert(n2.subrange(9, 13) =~= be_bytes(iv2 as nat, 4));
    lemma_numbers_injective(seq1, src1, iv1, seq2, src2, iv2);
}

proof fn lemma_number_lens(seq: u32, src: u16, iv: u32)
    ensures
        be_bytes(seq as nat, 3).len() == 3,
        be_bytes(src as nat, 2).len() == 2,
        be_bytes(iv as nat, 4).len() == 4,
{
    lemma_be_bytes_len(seq as nat, 3);
    lemma_be_bytes_len(src as nat, 2);
    lemma_be_bytes_len(iv as nat, 4);
}

proof fn lemma_numbers_injective(seq1: u32, src1: u16, iv1: u32, seq2: u32, src2: u16, iv2: u32)
    requires
        be_bytes(seq1 as nat, 3) == be_bytes(seq2 as nat, 3),
        be_bytes(src1 as nat, 2) == be_bytes(src2 as nat, 2),
        be_bytes(iv1 as nat, 4) == be_bytes(iv2 as nat, 4),
    ensures
        seq1 % SEQ_MODULUS == seq2 % SEQ_MODULUS,
        src1 == src2,
        iv1 == iv2,
{
    assert(pow(256, 2) == 0x1_0000 && pow(256, 3) == 0x100_0000 && pow(256, 4) == 0x1_0000_0000)
        by {
        reveal_with_fuel(pow, 5);
    }
    lemma_low_bytes(seq1);
    lemma_low_bytes(seq2);
    lemma_be_bytes_injective((seq1 % SEQ_MODULUS) as nat, (seq2 % SEQ_MODULUS) as nat, 3);
    lemma_be_bytes_injective(src1 as nat, src2 as nat, 2);
    lemma_be_bytes_injective(iv1 as nat, iv2 as nat, 4);
}

/// Two network nonces are the same only for the same control bit, time to live, sequence
/// number, source and IV index.
pub proof fn law_net_nonce_injective(
    ctl1: u8,
    ttl1: u8,
    seq1: u32,
    src1: u16,
    iv1: u32,
    ctl2: u8,
    ttl2: u8,
    seq2: u32,
    src2: u16,
    iv2: u32,
)
    requires
        net_nonce_bytes(ctl1, ttl1, seq1, src1, iv1) == net_nonce_bytes(
            ctl2,
            ttl2,
            seq2,
            src2,
            iv2,
        ),
    ensures
        ctl1 % 2 == ctl2 % 2,
        ttl1 % 128 == ttl2 % 128,
        seq1 % SEQ_MODULUS == seq2 % SEQ_MODULUS,
        src1 == src2,
        iv1 == iv2,
{
    lemma_header_nonce_parts(
        0x00,
        ctl_ttl(ctl1, ttl1),
        seq1,
        src1,
        iv1,
        ctl_ttl(ctl2, ttl2),
        seq2,
        src2,
        iv2,
    );
}

/// Two proxy configuration nonces are the same only for the same sequence number, source and
/// IV index.
pub proof fn law_proxy_nonce_injective(
    seq1: u32,
    src1: u16,
    iv1: u32,
    seq2: u32,
    src2: u16,
    iv2: u32,
)
    requires
        proxy_nonce_bytes(seq1, src1, iv1) == proxy_nonce_bytes(seq2, src2, iv2),
    ensures
        seq1 % SEQ_MODULUS == seq2 % SEQ_MODULUS,
        src1 == src2,
        iv1 == iv2,
{
    lemma_header_nonce_parts(0x03, 0x00, seq1, src1, iv1, 0x00, seq2, src2, iv2);
}

/// Two application nonces are the same only for the same sequence number, source, destination
/// and IV index.
pub proof fn law_app_nonce_injective(
    seq1: u32,
    src1: u16,
    dst1: u16,
    iv1: u32,
    seq2: u32,
    src2: u16,
    dst2: u16,
    iv2: u32,
)
    requires
        app_nonce_bytes(seq1, src1, dst1, iv1) == app_nonce_bytes(seq2, src2, dst2, iv2),
    ensures
        seq1 % SEQ_MODULUS == seq2 % SEQ_MODULUS,
        src1 == src2,
        dst1 == dst2,
        iv1 == iv2,
{
    let n1 = app_nonce_bytes(seq1, src1, dst1, iv1);
    let n2 = app_nonce_bytes(seq2, src2, dst2, iv2);
    lemma_number_lens(seq1, src1, iv1);
    lemma_number_lens(seq2, src2, iv2);
    lemma_be_bytes_len(dst1 as nat, 2);
    lemma_be_bytes_len(dst2 as nat, 2);
    assert(n1.subrange(2, 5) =~= be_bytes(seq1 as nat, 3));
    assert(n2.subrange(2, 5) =~= be_bytes(seq2 as nat, 3));
    assert(n1.subrange(5, 7) =~= be_bytes(src1 as nat, 2));
    assert(n2.subrange(5, 7) =~= be_bytes(src2 as nat, 2));
    assert(n1.subrange(7, 9) =~= be_bytes(dst1 as nat, 2));
    assert(n2.subrange(7, 9) =~= be_bytes(dst2 as nat, 2));
    assert(n1.subrange(9, 13) =~= be_bytes(iv1 as nat, 4));
    assert(n2.subrange(9, 13) =~= be_bytes(iv2 as nat, 4));
    lemma_numbers_injective(seq1, src1, iv1, seq2, src2, iv2);
    lemma_numbers_injective(seq1, dst1, iv1, seq2, dst2, iv2);
}

/// The three kinds of PDU are told apart: what is built here is never taken for a beacon, and a
/// configuration PDU is never taken for a network PDU.
pub proof fn law_pdu_types_apart(
    pdu_type: u8,
    nid: u8,
    priv_key: Seq<u8>,
    iv_index: u32,
    hdr: Seq<u8>,
    encrypted: Seq<u8>,
    enc_key: Seq<u8>,
    iv2: u32,
)
    ensures
        pdu_type % 64 != PROXY_TYPE_BEACON ==> beacon_iv_index(
            network_pdu(pdu_type, nid, priv_key, iv_index, hdr, encrypted),
        ) is None,
        pdu_type % 64 != PROXY_TYPE_NETWORK ==> network_contents(
            network_pdu(pdu_type, nid, priv_key, iv_index, hdr, encrypted),
            enc_key,
            priv_key,
            iv2,
        ) is None,
{
    assert(network_pdu(pdu_type, nid, priv_key, iv_index, hdr, encrypted)[0] == pdu_type);
}

/// An opcode is sent in as many bytes as its first byte says, the first of them from its low bits.
pub proof fn law_opcode_bytes(opcode: u32, params: Seq<u8>)
    ensures
        le_bytes(opcode as nat, opcode_len(opcode)) == if opcode % 256 < 0x80 {
                seq![(opcode % 256) as u8]
            } else if opcode % 256 < 0xc0 {
                seq![(opcode % 256) as u8, (opcode / 256 % 256) as u8]
            } else {
                seq![
                    (opcode % 256) as u8,
                    (opcode / 256 % 256) as u8,
                    (opcode / 65536 % 256) as u8,
                ]
            },
        access_pdu(opcode, params) == le_bytes(opcode as nat, opcode_len(opcode)) + params,
{
    reveal_with_fuel(le_bytes, 4);
    assert(opcode as nat / 256 / 256 == opcode / 65536);
    assert(le_bytes(opcode as nat, opcode_len(opcode)) =~= if opcode % 256 < 0x80 {
                seq![(opcode % 256) as u8]
            } else if opcode % 256 < 0xc0 {
                seq![(opcode % 256) as u8, (opcode / 256 % 256) as u8]
            } else {
                seq![
                    (opcode % 256) as u8,
                    (opcode / 256 % 256) as u8,
                    (opcode / 65536 % 256) as u8,
                ]
            });
}

/// The nonces, byte by byte.
pub proof fn law_nonce_bytes(ctl: u8, ttl: u8, seq: u32, src: u16, dst: u16, iv: u32)
    ensures
        ({
            let i = seq![
                (iv / 16777216) as u8,
                (iv / 65536 % 256) as u8,
                (iv / 256 % 256) as u8,
                (iv % 256) as u8,
            ];
            let q = seq![(seq / 65536 % 256) as u8, (seq / 256 % 256) as u8, (seq % 256) as u8];
            let s = seq![(src / 256) as u8, (src % 256) as u8];
            let d = seq![(dst / 256) as u8, (dst % 256) as u8];
            &&& app_nonce_bytes(seq, src, dst, iv) == seq![0x01u8, 0x00] + q + s + d + i
            &&& net_nonce_bytes(ctl, ttl, seq, src, iv) == seq![
                0x00u8,
                (ctl % 2 * 128 + ttl % 128) as u8,
            ] + q + s + seq![0u8, 0] + i
            &&& proxy_nonce_bytes(seq, src, iv) == seq![0x03u8, 0x00] + q + s + seq![0u8, 0] + i
        }),
{
    law_three_bytes(seq);
    law_two_bytes(src);
    law_two_bytes(dst);
    law_four_bytes(iv);
}

/// The header of a masked PDU comes out by the mask that the first seven encrypted bytes make.
proof fn lemma_unmasking(
    kind: u8,
    nid: u8,
    priv_key: Seq<u8>,
    iv: u32,
    ctl_ttl: u8,
    seq: u32,
    src: u16,
    encrypted: Seq<u8>,
)
    ensures
        ({
            let r = network_pdu(kind, nid, priv_key, iv, header(ctl_ttl, seq, src), encrypted);
            &&& r.len() == encrypted.len() + 8
            &&& r.skip(8) == encrypted
            &&& r[0] == kind
            &&& r[1] as int == (iv % 2) * 128 + nid % 128
            &&& r.len() >= 15 ==> {
                let mask = aes128(
                    priv_key,
                    seq![0u8, 0, 0, 0, 0] + seq![
                (iv / 16777216) as u8,
                (iv / 65536 % 256) as u8,
                (iv / 256 % 256) as u8,
                (iv % 256) as u8,
            ] + r.subrange(8, 15),
                );
                &&& r[2] ^ mask[0] == ctl_ttl
                &&& (r[3] ^ mask[1]) as int == seq / 65536 % 256
                &&& (r[4] ^ mask[2]) as int == seq / 256 % 256
                &&& (r[5] ^ mask[3]) as int == seq % 256
                &&& (r[6] ^ mask[4]) as int == src / 256
                &&& (r[7] ^ mask[5]) as int == src % 256
            }
        }),
{
    let hdr = header(ctl_ttl, seq, src);
    let r = network_pdu(kind, nid, priv_key, iv, hdr, encrypted);
    law_three_bytes(seq);
    law_two_bytes(src);
    assert(hdr.len() == 6);
    assert(r.skip(8) =~= encrypted);
    if encrypted.len() >= 7 {
        let mask = pecb(priv_key, iv, encrypted.take(7));
        assert(r.subrange(8, 15) =~= encrypted.take(7));
        law_privacy_mask(priv_key, iv, encrypted.take(7));
        let i = seq![
                (iv / 16777216) as u8,
                (iv / 65536 % 256) as u8,
                (iv / 256 % 256) as u8,
                (iv % 256) as u8,
            ];
        assert(seq![0u8, 0, 0, 0, 0] + i + r.subrange(8, 15) =~= seq![
            0u8,
            0,
            0,
            0,
            0,
            (iv / 16777216) as u8,
            (iv / 65536 % 256) as u8,
            (iv / 256 % 256) as u8,
            (iv % 256) as u8,
        ] + encrypted.take(7));
        lemma_xor_undoes(hdr, mask);
        let back = xor_bytes(xor_bytes(hdr, mask), mask);
        assert(r.subrange(2, 8) =~= xor_bytes(hdr, mask));
        assert forall|k: int| 2 <= k < 8 implies (#[trigger] r[k]) ^ mask[k - 2] == hdr[k - 2] by {
            assert(r[k] == r.subrange(2, 8)[k - 2]);
            assert(back[k - 2] == hdr[k - 2]);
        }
        assert(r[2] ^ mask[0] == hdr[0] && r[3] ^ mask[1] == hdr[1] && r[4] ^ mask[2] == hdr[2]);
        assert(r[5] ^ mask[3] == hdr[3] && r[6] ^ mask[4] == hdr[4] && r[7] ^ mask[5] == hdr[5]);
    }
}

/// A message for a light, byte by byte, as a receiver with the keys takes it apart.
///
/// Behind the eight bytes of the header stands what AES-CCM makes, under the encryption key, of
/// the destination, the application key identifier and what AES-CCM makes, under the application
/// key, of the opcode and the parameters. The first seven of these bytes, behind five zeros and
/// the IV index, make the mask under the privacy key; it uncovers the time to live, the sequence
/// number and the source.
pub proof fn law_message_in_bytes(
    app_key: Seq<u8>,
    aid: u8,
    nid: u8,
    enc_key: Seq<u8>,
    priv_key: Seq<u8>,
    seq: u32,
    src: u16,
    dst: u16,
    iv: u32,
    opcode: u32,
    params: Seq<u8>,
)
    ensures
        ({
            let r = proxy_pdu(
                app_key,
                aid,
                nid,
                enc_key,
                priv_key,
                seq,
                src,
                dst,
                iv,
                opcode,
                params,
            );
            let i = seq![
                (iv / 16777216) as u8,
                (iv / 65536 % 256) as u8,
                (iv / 256 % 256) as u8,
                (iv % 256) as u8,
            ];
            let q = seq![(seq / 65536 % 256) as u8, (seq / 256 % 256) as u8, (seq % 256) as u8];
            let s = seq![(src / 256) as u8, (src % 256) as u8];
            let d = seq![(dst / 256) as u8, (dst % 256) as u8];
            let op = if opcode % 256 < 0x80 {
                seq![(opcode % 256) as u8]
            } else if opcode % 256 < 0xc0 {
                seq![(opcode % 256) as u8, (opcode / 256 % 256) as u8]
            } else {
                seq![
                    (opcode % 256) as u8,
                    (opcode / 256 % 256) as u8,
                    (opcode / 65536 % 256) as u8,
                ]
            };
            let upper = ccm_seal(app_key, seq![0x01u8, 0x00] + q + s + d + i, op + params);
            &&& r.skip(8) == ccm_seal(
                enc_key,
                seq![0x00u8, 0x0a] + q + s + seq![0u8, 0] + i,
                d + seq![(0x40 + aid % 64) as u8] + upper,
            )
            &&& r[0] == 0x00
            &&& r[1] as int == (iv % 2) * 128 + nid % 128
            &&& r.len() >= 15 ==> {
                let mask = aes128(priv_key, seq![0u8, 0, 0, 0, 0] + i + r.subrange(8, 15));
                &&& r[2] ^ mask[0] == 0x0a
                &&& (r[3] ^ mask[1]) as int == seq / 65536 % 256
                &&& (r[4] ^ mask[2]) as int == seq / 256 % 256
                &&& (r[5] ^ mask[3]) as int == seq % 256
                &&& (r[6] ^ mask[4]) as int == src / 256
                &&& (r[7] ^ mask[5]) as int == src % 256
            }
        }),
{
    law_opcode_bytes(opcode, params);
    law_nonce_bytes(0, DEFAULT_TTL, seq, src, dst, iv);
    law_two_bytes(dst);
    let upper = upper_transport(app_key, seq, src, dst, iv, opcode, params);
    let d = seq![(dst / 256) as u8, (dst % 256) as u8];
    assert(network_payload(dst, aid, upper) =~= d + seq![(0x40 + aid % 64) as u8] + upper);
    let encrypted = ccm_seal(
        enc_key,
        net_nonce_bytes(0, DEFAULT_TTL, seq, src, iv),
        network_payload(dst, aid, upper),
    );
    lemma_unmasking(0x00, nid, priv_key, iv, 0x0a, seq, src, encrypted);
}

/// A configuration message for the proxy, byte by byte.
pub proof fn law_configuration_in_bytes(
    nid: u8,
    enc_key: Seq<u8>,
    priv_key: Seq<u8>,
    seq: u32,
    src: u16,
    iv: u32,
    opcode: u8,
    params: Seq<u8>,
)
    ensures
        ({
            let r = proxy_config_pdu(nid, enc_key, priv_key, seq, src, iv, opcode, params);
            let i = seq![
                (iv / 16777216) as u8,
                (iv / 65536 % 256) as u8,
                (iv / 256 % 256) as u8,
                (iv % 256) as u8,
            ];
            let q = seq![(seq / 65536 % 256) as u8, (seq / 256 % 256) as u8, (seq % 256) as u8];
            let s = seq![(src / 256) as u8, (src % 256) as u8];
            &&& r.skip(8) == ccm_seal(
                enc_key,
                seq![0x03u8, 0x00] + q + s + seq![0u8, 0] + i,
                seq![0u8, 0, (opcode % 128) as u8] + params,
            )
            &&& r[0] == 0x02
            &&& r[1] as int == (iv % 2) * 128 + nid % 128
            &&& r.len() >= 15 ==> {
                let mask = aes128(priv_key, seq![0u8, 0, 0, 0, 0] + i + r.subrange(8, 15));
                &&& r[2] ^ mask[0] == 0x80
                &&& (r[3] ^ mask[1]) as int == seq / 65536 % 256
                &&& (r[4] ^ mask[2]) as int == seq / 256 % 256
                &&& (r[5] ^ mask[3]) as int == seq % 256
                &&& (r[6] ^ mask[4]) as int == src / 256
                &&& (r[7] ^ mask[5]) as int == src % 256
            }
        }),
{
    law_nonce_bytes(0, 0, seq, src, 0, iv);
    let encrypted = ccm_seal(
        enc_key,
        proxy_nonce_bytes(seq, src, iv),
        config_payload(opcode, params),
    );
    lemma_unmasking(0x02, nid, priv_key, iv, 0x80, seq, src, encrypted);
}

/// How a network PDU is taken apart, byte by byte: the mask uncovers the header, the header makes
/// the nonce, and what AES-CCM opens comes with the sequence number and the source.
pub proof fn law_reading_in_bytes(data: Seq<u8>, enc_key: Seq<u8>, priv_key: Seq<u8>, iv: u32)
    ensures
        data.len() < 13 ==> network_contents(data, enc_key, priv_key, iv) is None,
        data.len() > 0 && data[0] % 64 != 0 ==> network_contents(data, enc_key, priv_key, iv) is None,
        data.len() > 65547 ==> network_contents(data, enc_key, priv_key, iv) is None,
        15 <= data.len() <= 65547 && data[0] % 64 == 0 ==> {
            let i = seq![
                (iv / 16777216) as u8,
                (iv / 65536 % 256) as u8,
                (iv / 256 % 256) as u8,
                (iv % 256) as u8,
            ];
            let mask = aes128(priv_key, seq![0u8, 0, 0, 0, 0] + i + data.subrange(8, 15));
            let h0 = data[2] ^ mask[0];
            let h1 = data[3] ^ mask[1];
            let h2 = data[4] ^ mask[2];
            let h3 = data[5] ^ mask[3];
            let h4 = data[6] ^ mask[4];
            let h5 = data[7] ^ mask[5];
            let nonce = seq![0x00u8, h0, h1, h2, h3, h4, h5, 0, 0] + i;
            network_contents(data, enc_key, priv_key, iv) == match ccm_open(
                enc_key,
                nonce,
                data.skip(8),
            ) {
                Some(payload) => Some(
                    (payload, (h1 * 65536 + h2 * 256 + h3) as u32, (h4 * 256 + h5) as u16),
                ),
                None => None,
            }
        },
{
    if 15 <= data.len() <= 65547 && data[0] % 64 == 0 {
        let i = seq![
                (iv / 16777216) as u8,
                (iv / 65536 % 256) as u8,
                (iv / 256 % 256) as u8,
                (iv % 256) as u8,
            ];
        let random = data.skip(8).take(7);
        assert(random =~= data.subrange(8, 15));
        law_privacy_mask(priv_key, iv, random);
        assert(seq![0u8, 0, 0, 0, 0] + i + data.subrange(8, 15) =~= seq![
            0u8,
            0,
            0,
            0,
            0,
            (iv / 16777216) as u8,
            (iv / 65536 % 256) as u8,
            (iv / 256 % 256) as u8,
            (iv % 256) as u8,
        ] + random);
        let mask = pecb(priv_key, iv, random);
        let hdr = received_header(data, priv_key, iv);
        law_four_bytes(iv);
        assert(hdr.len() == 6);
        assert(hdr =~= seq![
            data[2] ^ mask[0],
            data[3] ^ mask[1],
            data[4] ^ mask[2],
            data[5] ^ mask[3],
            data[6] ^ mask[4],
            data[7] ^ mask[5],
        ]);
        assert(received_nonce(data, priv_key, iv) =~= seq![
            0x00u8,
            hdr[0],
            hdr[1],
            hdr[2],
            hdr[3],
            hdr[4],
            hdr[5],
            0,
            0,
        ] + i);
        let q = hdr.subrange(1, 4);
        let s = hdr.subrange(4, 6);
        reveal_with_fuel(be_value, 4);
        assert(q.drop_last().drop_last().drop_last() =~= Seq::<u8>::empty());
        assert(s.drop_last().drop_last() =~= Seq::<u8>::empty());
        assert(be_value(q) == hdr[1] * 65536 + hdr[2] * 256 + hdr[3]);
        assert(be_value(s) == hdr[4] * 256 + hdr[5]);
    }
}

/// A secure network beacon tells its IV index, whatever its flags, its network identifier and
/// its authentication value are; nothing else tells one.
pub proof fn law_beacon_tells_its_iv_index(
    first: u8,
    flags: u8,
    network: Seq<u8>,
    iv: u32,
    authentication: Seq<u8>,
    other: Seq<u8>,
)
    requires
        first % 64 == 1,
        network.len() == 8,
        authentication.len() >= 8,
    ensures
        beacon_iv_index(
            seq![first, 0x01, flags] + network + seq![
                (iv / 16777216) as u8,
                (iv / 65536 % 256) as u8,
                (iv / 256 % 256) as u8,
                (iv % 256) as u8,
            ] + authentication,
        ) == Some(iv),
        other.len() < 23 || other[0] % 64 != 1 || other[1] != 0x01 ==> beacon_iv_index(
            other,
        ) is None,
{
    let i = seq![
                (iv / 16777216) as u8,
                (iv / 65536 % 256) as u8,
                (iv / 256 % 256) as u8,
                (iv % 256) as u8,
            ];
    let data = seq![first, 0x01, flags] + network + i + authentication;
    assert(data[0] == first && data[1] == 0x01);
    assert(data.subrange(11, 15) =~= i);
    reveal_with_fuel(be_value, 5);
    assert(i.drop_last().drop_last().drop_last().drop_last() =~= Seq::<u8>::empty());
    assert(be_value(i) == iv);
}

} // verus!
