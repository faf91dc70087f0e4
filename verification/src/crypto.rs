//! Mesh security functions: AES-CMAC, the key derivations built on it,
//! AES-CCM and the privacy mask of network headers.

use crate::octets::{
    append_bytes, be32, be_bytes, be_value, law_four_bytes, lemma_be_bytes_len, xor_bytes, zeros,
};
use aes::cipher::{BlockEncrypt, KeyInit};
use ccm::aead::Aead;
use vstd::arithmetic::div_mod::{lemma_fundamental_div_mod, lemma_fundamental_div_mod_converse};
use vstd::arithmetic::power::pow;
use vstd::prelude::*;

verus! {

/// What AES-128 under `key` makes of `block`.
pub uninterp spec fn aes128(key: Seq<u8>, block: Seq<u8>) -> Seq<u8>;

/// What AES-CCM under `key` and `nonce` makes of `plaintext`: the ciphertext and its four-byte
/// check value.
pub uninterp spec fn ccm_seal(key: Seq<u8>, nonce: Seq<u8>, plaintext: Seq<u8>) -> Seq<u8>;

/// The plaintext that AES-CCM under `key` and `nonce` finds in `sealed`, where the check value
/// is right.
pub uninterp spec fn ccm_open(key: Seq<u8>, nonce: Seq<u8>, sealed: Seq<u8>) -> Option<Seq<u8>>;

/// The longest plaintext that AES-CCM takes with a 13-byte nonce.
pub const CCM_MAX_LEN: usize = 0xffff;

/// The length of a check value.
pub const MIC_LEN: u8 = 4;

/// Encrypts one block by `aes::Aes128`.
///
/// The result is taken to be a function of the key and the block alone.
#[verifier::external_body]
pub fn aes_ecb_block(key: &[u8; 16], data: &[u8; 16]) -> (r: [u8; 16])
    ensures
        r@ == aes128(key@, data@),
{
    let cipher = aes::Aes128::new_from_slice(key).expect("invalid aes key");
    let mut block = (*data).into();
    cipher.encrypt_block(&mut block);
    block.into()
}

/// `bytes` shifted left by one bit; the highest bit falls out.
pub open spec fn shift_left(bytes: Seq<u8>) -> Seq<u8> {
    Seq::new(
        bytes.len(),
        |i: int|
            ((2 * bytes[i]) % 256 + if i + 1 < bytes.len() {
                bytes[i + 1] as int / 128
            } else {
                0
            }) as u8,
    )
}

/// Multiplication by x in the field of CMAC.
pub open spec fn gf_double(block: Seq<u8>) -> Seq<u8> {
    let shifted = shift_left(block);
    if block[0] >= 0x80 {
        shifted.update(15, shifted[15] ^ 0x87)
    } else {
        shifted
    }
}

/// The number of blocks in front of the last block of a message.
pub open spec fn leading_blocks(len: nat) -> nat {
    if len == 0 {
        0
    } else {
        ((len - 1) / 16) as nat
    }
}

/// The chaining value after the first `n` blocks of `message`.
pub open spec fn cbc_chain(key: Seq<u8>, message: Seq<u8>, n: nat) -> Seq<u8>
    decreases n,
{
    if n == 0 {
        zeros(16)
    } else {
        aes128(
            key,
            xor_bytes(
                cbc_chain(key, message, (n - 1) as nat),
                message.subrange(16 * (n - 1), 16 * n as int),
            ),
        )
    }
}

/// A block of fewer than 16 bytes filled up with a one bit and zero bits.
pub open spec fn padded(rest: Seq<u8>) -> Seq<u8> {
    rest.push(0x80) + zeros((15 - rest.len()) as nat)
}

/// The last block of a message, masked with the first subkey where it is whole and padded and
/// masked with the second where it is not.
pub open spec fn masked_last_block(key: Seq<u8>, message: Seq<u8>) -> Seq<u8> {
    let k1 = gf_double(aes128(key, zeros(16)));
    let rest = message.skip(16 * leading_blocks(message.len()) as int);
    if rest.len() == 16 {
        xor_bytes(rest, k1)
    } else {
        xor_bytes(padded(rest), gf_double(k1))
    }
}

/// AES-CMAC as RFC 4493 defines it.
pub open spec fn cmac(key: Seq<u8>, message: Seq<u8>) -> Seq<u8> {
    aes128(
        key,
        xor_bytes(
            cbc_chain(key, message, leading_blocks(message.len())),
            masked_last_block(key, message),
        ),
    )
}

/// Shifts a block left by one bit and masks its last byte with `xor_byte`.
pub fn cmac_shift_left(b: &[u8; 16], xor_byte: u8) -> (r: [u8; 16])
    ensures
        r@ == shift_left(b@).update(15, shift_left(b@)[15] ^ xor_byte),
{
    let mut out = [0u8; 16];
    let mut carry: u8 = 0;
    let mut i: usize = 16;
    while i > 0
        invariant
            i <= 16,
            carry == if i < 16 {
                b@[i as int] as int / 128
            } else {
                0
            },
            forall|k: int| i <= k < 16 ==> out@[k] == shift_left(b@)[k],
        decreases i,
    {
        i = i - 1;
        out[i] = b[i] % 128 * 2 + carry;
        carry = b[i] / 128;
    }
    out[15] = out[15] ^ xor_byte;
    assert(out@ =~= shift_left(b@).update(15, shift_left(b@)[15] ^ xor_byte));
    out
}

fn double_block(b: &[u8; 16]) -> (r: [u8; 16])
    ensures
        r@ == gf_double(b@),
{
    if b[0] >= 0x80 {
        cmac_shift_left(b, 0x87)
    } else {
        let r = cmac_shift_left(b, 0);
        proof {
            let last = shift_left(b@)[15];
            assert(last ^ 0 == last) by (bit_vector);
            assert(r@ =~= gf_double(b@));
        }
        r
    }
}

fn xor_blocks(a: &[u8; 16], b: &[u8; 16]) -> (r: [u8; 16])
    ensures
        r@ == xor_bytes(a@, b@),
{
    let mut out = *a;
    let mut j: usize = 0;
    while j < 16
        invariant
            j <= 16,
            forall|k: int| 0 <= k < j ==> out@[k] == a@[k] ^ b@[k],
            forall|k: int| j <= k < 16 ==> out@[k] == a@[k],
        decreases 16 - j,
    {
        out[j] = out[j] ^ b[j];
        j = j + 1;
    }
    assert(out@ =~= xor_bytes(a@, b@));
    out
}

/// Copies as many bytes of `message` from `start` on as a block has room for.
fn block_at(message: &[u8], start: usize, len: usize) -> (r: [u8; 16])
    requires
        len <= 16,
        start + len <= message@.len(),
    ensures
        r@ == message@.subrange(start as int, start + len) + zeros((16 - len) as nat),
{
    let total: usize = message.len();
    let mut out = [0u8; 16];
    let mut j: usize = 0;
    while j < len
        invariant
            j <= len <= 16,
            start + len <= total,
            total == message@.len(),
            forall|k: int| 0 <= k < j ==> out@[k] == message@[start + k],
            forall|k: int| j <= k < 16 ==> out@[k] == 0,
        decreases len - j,
    {
        out[j] = message[start + j];
        j = j + 1;
    }
    assert(out@ =~= message@.subrange(start as int, start + len) + zeros((16 - len) as nat));
    out
}

/// The AES-CMAC of `message` under `key`.
pub fn aes_cmac(key: &[u8; 16], message: &[u8]) -> (r: [u8; 16])
    ensures
        r@ == cmac(key@, message@),
{
    let zero = [0u8; 16];
    assert(zero@ =~= zeros(16));
    let l = aes_ecb_block(key, &zero);
    let k1 = double_block(&l);
    let k2 = double_block(&k1);

    let len: usize = message.len();
    let leading: usize = if len == 0 {
        0
    } else {
        (len - 1) / 16
    };

    let mut x = [0u8; 16];
    assert(x@ =~= zeros(16));
    let mut i: usize = 0;
    while i < leading
        invariant
            i <= leading,
            leading == leading_blocks(message@.len()),
            len == message@.len(),
            16 * leading <= len,
            x@ == cbc_chain(key@, message@, i as nat),
        decreases leading - i,
    {
        let block = block_at(message, i * 16, 16);
        assert(block@ =~= message@.subrange(16 * i, 16 * (i + 1)));
        x = aes_ecb_block(key, &xor_blocks(&x, &block));
        i = i + 1;
    }

    let start: usize = leading * 16;
    let rem: usize = len - start;
    let ghost rest = message@.skip(start as int);
    let last_block = if rem == 16 {
        let block = block_at(message, start, 16);
        assert(block@ =~= rest);
        xor_blocks(&block, &k1)
    } else {
        let mut block = block_at(message, start, rem);
        block[rem] = 0x80;
        assert(block@ =~= padded(rest));
        xor_blocks(&block, &k2)
    };
    aes_ecb_block(key, &xor_blocks(&x, &last_block))
}

/// The salt generation function of the mesh profile.
pub open spec fn mesh_salt(m: Seq<u8>) -> Seq<u8> {
    cmac(zeros(16), m)
}

/// The salt generation function of the mesh profile.
pub fn s1(m: &[u8]) -> (r: [u8; 16])
    ensures
        r@ == mesh_salt(m@),
{
    let zero = [0u8; 16];
    assert(zero@ =~= zeros(16));
    aes_cmac(&zero, m)
}

/// What a network key is used as: the identifier in the headers, the encryption key and the
/// privacy key.
pub struct DerivedNetKey {
    pub nid: u8,
    pub enc_key: [u8; 16],
    pub priv_key: [u8; 16],
}

/// The intermediate key of [`k2`].
pub open spec fn k2_key(net_key: Seq<u8>) -> Seq<u8> {
    cmac(mesh_salt(seq![0x73u8, 0x6d, 0x6b, 0x32]), net_key)
}

/// The first output block of [`k2`].
pub open spec fn k2_t1(net_key: Seq<u8>) -> Seq<u8> {
    cmac(k2_key(net_key), seq![0u8, 1])
}

/// The second output block of [`k2`].
pub open spec fn k2_t2(net_key: Seq<u8>) -> Seq<u8> {
    cmac(k2_key(net_key), k2_t1(net_key) + seq![0u8, 2])
}

/// The third output block of [`k2`].
pub open spec fn k2_t3(net_key: Seq<u8>) -> Seq<u8> {
    cmac(k2_key(net_key), k2_t2(net_key) + seq![0u8, 3])
}

/// The network key derivation of the mesh profile, for the managed flooding credentials.
pub fn k2(net_key: &[u8; 16]) -> (r: DerivedNetKey)
    ensures
        r.nid == k2_t1(net_key@)[15] % 128,
        r.enc_key@ == k2_t2(net_key@),
        r.priv_key@ == k2_t3(net_key@),
{
    let label = [0x73u8, 0x6d, 0x6b, 0x32];
    assert(label@ =~= seq![0x73u8, 0x6d, 0x6b, 0x32]);
    let salt = s1(&label);
    let t = aes_cmac(&salt, net_key);

    let first = [0u8, 1];
    assert(first@ =~= seq![0u8, 1]);
    let t1 = aes_cmac(&t, &first);

    let mut m2: Vec<u8> = Vec::new();
    append_bytes(&mut m2, &t1);
    append_bytes(&mut m2, &[0u8, 2]);
    assert(m2@ =~= k2_t1(net_key@) + seq![0u8, 2]);
    let t2 = aes_cmac(&t, m2.as_slice());

    let mut m3: Vec<u8> = Vec::new();
    append_bytes(&mut m3, &t2);
    append_bytes(&mut m3, &[0u8, 3]);
    assert(m3@ =~= k2_t2(net_key@) + seq![0u8, 3]);
    let t3 = aes_cmac(&t, m3.as_slice());

    DerivedNetKey { nid: t1[15] % 128, enc_key: t2, priv_key: t3 }
}

/// The output block of [`k4`].
pub open spec fn k4_block(app_key: Seq<u8>) -> Seq<u8> {
    cmac(
        cmac(mesh_salt(seq![0x73u8, 0x6d, 0x6b, 0x34]), app_key),
        seq![0x69u8, 0x64, 0x36, 0x01],
    )
}

/// The application key identifier of the mesh profile.
pub fn k4(app_key: &[u8; 16]) -> (aid: u8)
    ensures
        aid == k4_block(app_key@)[15] % 64,
{
    let label = [0x73u8, 0x6d, 0x6b, 0x34];
    assert(label@ =~= seq![0x73u8, 0x6d, 0x6b, 0x34]);
    let salt = s1(&label);
    let t = aes_cmac(&salt, app_key);
    let id = [0x69u8, 0x64, 0x36, 0x01];
    assert(id@ =~= seq![0x69u8, 0x64, 0x36, 0x01]);
    let result = aes_cmac(&t, &id);
    result[15] % 64
}

/// Encrypts by `ccm::Ccm::encrypt` over AES-128 with a four-byte tag and a 13-byte nonce.
///
/// The result is taken to be a function of the key, the nonce and the plaintext alone, four
/// bytes longer than the plaintext, and such that decrypting it gives the plaintext back.
/// The call fails on a plaintext of more than 65535 bytes and on no other.
#[verifier::external_body]
fn ccm_encrypt(key: &[u8; 16], nonce: &[u8; 13], plaintext: &[u8]) -> (r: Vec<u8>)
    requires
        plaintext@.len() <= CCM_MAX_LEN,
    ensures
        r@ == ccm_seal(key@, nonce@, plaintext@),
        r@.len() == plaintext@.len() + 4,
        ccm_open(key@, nonce@, r@) == Some(plaintext@),
{
    ccm::Ccm::<aes::Aes128, ccm::consts::U4, ccm::consts::U13>::new_from_slice(key)
        .expect("invalid ccm key")
        .encrypt(nonce.into(), plaintext)
        .expect("ccm encrypt failed")
}

/// Decrypts by `ccm::Ccm::decrypt` over AES-128 with a four-byte tag and a 13-byte nonce.
///
/// The result is taken to be a function of the key, the nonce and the ciphertext alone. It is
/// nothing on fewer than four bytes, and a plaintext is only handed out where encrypting it
/// gives the ciphertext.
#[verifier::external_body]
fn ccm_decrypt(key: &[u8; 16], nonce: &[u8; 13], sealed: &[u8]) -> (r: Option<Vec<u8>>)
    requires
        sealed@.len() <= CCM_MAX_LEN + 4,
    ensures
        r is Some <==> ccm_open(key@, nonce@, sealed@) is Some,
        r matches Some(p) ==> {
            &&& ccm_open(key@, nonce@, sealed@) == Some(p@)
            &&& ccm_seal(key@, nonce@, p@) == sealed@
            &&& sealed@.len() == p@.len() + 4
        },
{
    ccm::Ccm::<aes::Aes128, ccm::consts::U4, ccm::consts::U13>::new_from_slice(key)
        .expect("invalid ccm key")
        .decrypt(nonce.into(), sealed)
        .ok()
}

/// Encrypts `plaintext` and appends a check value of `mic_len` bytes, which must be four.
pub fn aes_ccm_encrypt(key: &[u8; 16], nonce: &[u8; 13], plaintext: &[u8], mic_len: u8) -> (r: Vec<
    u8,
>)
    requires
        mic_len == MIC_LEN,
        plaintext@.len() <= CCM_MAX_LEN,
    ensures
        r@ == ccm_seal(key@, nonce@, plaintext@),
        r@.len() == plaintext@.len() + mic_len,
        ccm_open(key@, nonce@, r@) == Some(plaintext@),
{
    ccm_encrypt(key, nonce, plaintext)
}

/// The plaintext of what [`aes_ccm_encrypt`] may have made: none where `sealed` is too long to
/// be such a result or the check value is wrong.
pub open spec fn opened(key: Seq<u8>, nonce: Seq<u8>, sealed: Seq<u8>) -> Option<Seq<u8>> {
    if sealed.len() > CCM_MAX_LEN + 4 {
        None
    } else {
        ccm_open(key, nonce, sealed)
    }
}

/// Decrypts `sealed`, whose last `mic_len` bytes are a check value. That length must be four.
pub fn aes_ccm_decrypt(key: &[u8; 16], nonce: &[u8; 13], sealed: &[u8], mic_len: u8) -> (r: Option<
    Vec<u8>,
>)
    requires
        mic_len == MIC_LEN,
    ensures
        r is Some <==> opened(key@, nonce@, sealed@) is Some,
        r matches Some(p) ==> {
            &&& opened(key@, nonce@, sealed@) == Some(p@)
            &&& ccm_seal(key@, nonce@, p@) == sealed@
            &&& sealed@.len() == p@.len() + mic_len
        },
{
    if sealed.len() > CCM_MAX_LEN + 4 {
        None
    } else {
        ccm_decrypt(key, nonce, sealed)
    }
}

/// The block whose encryption masks the header of a network PDU.
pub open spec fn privacy_plaintext(iv_index: u32, privacy_random: Seq<u8>) -> Seq<u8> {
    zeros(5) + be_bytes(iv_index as nat, 4) + privacy_random
}

/// The privacy mask of a network PDU.
pub open spec fn pecb(priv_key: Seq<u8>, iv_index: u32, privacy_random: Seq<u8>) -> Seq<u8> {
    aes128(priv_key, privacy_plaintext(iv_index, privacy_random))
}

/// Computes the privacy mask of a network PDU.
pub fn compute_pecb(priv_key: &[u8; 16], iv_index: u32, privacy_random: &[u8; 7]) -> (r: [u8; 16])
    ensures
        r@ == pecb(priv_key@, iv_index, privacy_random@),
{
    let iv = be32(iv_index);
    let mut input = [0u8; 16];
    let mut i: usize = 0;
    while i < 4
        invariant
            i <= 4,
            forall|k: int| 0 <= k < 5 ==> input@[k] == 0,
            forall|k: int| 0 <= k < i ==> input@[5 + k] == iv@[k],
        decreases 4 - i,
    {
        input[5 + i] = iv[i];
        i = i + 1;
    }
    i = 0;
    while i < 7
        invariant
            i <= 7,
            forall|k: int| 0 <= k < 5 ==> input@[k] == 0,
            forall|k: int| 0 <= k < 4 ==> input@[5 + k] == iv@[k],
            forall|k: int| 0 <= k < i ==> input@[9 + k] == privacy_random@[k],
        decreases 7 - i,
    {
        input[9 + i] = privacy_random[i];
        i = i + 1;
    }
    proof {
        lemma_be_bytes_len(iv_index as nat, 4);
        assert forall|k: int| 0 <= k < 16 implies input@[k] == privacy_plaintext(
            iv_index,
            privacy_random@,
        )[k] by {
            if 5 <= k < 9 {
                assert(input@[5 + (k - 5)] == iv@[k - 5]);
            } else if 9 <= k {
                assert(input@[9 + (k - 9)] == privacy_random@[k - 9]);
            }
        }
        assert(input@ =~= privacy_plaintext(iv_index, privacy_random@));
    }
    aes_ecb_block(priv_key, &input)
}

proof fn lemma_be_value_split(bytes: Seq<u8>)
    requires
        bytes.len() > 0,
    ensures
        be_value(bytes) == bytes[0] * pow(256, (bytes.len() - 1) as nat) + be_value(
            bytes.drop_first(),
        ),
        be_value(bytes.drop_first()) < pow(256, (bytes.len() - 1) as nat),
    decreases bytes.len(),
{
    reveal(pow);
    let tail = bytes.drop_first();
    if bytes.len() == 1 {
        assert(tail =~= Seq::<u8>::empty());
        assert(bytes.drop_last() =~= Seq::<u8>::empty());
        assert(be_value(bytes.drop_last()) == 0);
    } else {
        let front = bytes.drop_last();
        lemma_be_value_split(front);
        assert(front.drop_first() =~= tail.drop_last());
        let p = pow(256, (bytes.len() - 2) as nat);
        let a = bytes[0] as int;
        let m = be_value(front.drop_first()) as int;
        assert(pow(256, (bytes.len() - 1) as nat) == 256 * p);
        assert(256 * (a * p + m) == a * (256 * p) + 256 * m) by (nonlinear_arith);
        assert(tail.last() == bytes.last());
        assert(be_value(bytes) == 256 * (a * p + m) + bytes.last());
        assert(be_value(tail) == 256 * m + bytes.last());
    }
}

/// Shifting left by one bit doubles the number that the bytes stand for, modulo the power of
/// two that their bits can hold.
pub proof fn law_shift_left_doubles(bytes: Seq<u8>)
    requires
        bytes.len() > 0,
    ensures
        be_value(shift_left(bytes)) == (2 * be_value(bytes)) % (pow(256, bytes.len()) as nat),
        bytes[0] as int / 128 == (2 * be_value(bytes)) as int / pow(256, bytes.len()),
    decreases bytes.len(),
{
    reveal(pow);
    let n = bytes.len();
    let shifted = shift_left(bytes);
    let p = pow(256, (n - 1) as nat);
    lemma_be_value_split(bytes);
    lemma_be_value_split(shifted);
    let tail = bytes.drop_first();
    let t = be_value(tail) as int;
    let b0 = bytes[0] as int;
    assert(shifted.drop_first() =~= shift_left(tail));
    assert(pow(256, n) == 256 * p);
    let carry = if n > 1 {
        bytes[1] as int / 128
    } else {
        0
    };
    if n > 1 {
        law_shift_left_doubles(tail);
        lemma_fundamental_div_mod(2 * t, p);
        assert(2 * t == p * carry + be_value(shift_left(tail)));
    } else {
        assert(shift_left(tail) =~= Seq::<u8>::empty());
        assert(tail =~= Seq::<u8>::empty());
    }
    let low = (2 * b0) % 256;
    let high = b0 / 128;
    assert(2 * b0 == 256 * high + low);
    let value = be_value(shifted) as int;
    assert(value == low * p + 2 * t) by (nonlinear_arith)
        requires
            value == (low + carry) * p + be_value(shift_left(tail)),
            2 * t == p * carry + be_value(shift_left(tail)),
    ;
    assert(2 * (b0 * p + t) == high * (256 * p) + value) by (nonlinear_arith)
        requires
            value == low * p + 2 * t,
            2 * b0 == 256 * high + low,
    ;
    assert(0 <= value < 256 * p) by (nonlinear_arith)
        requires
            value == low * p + 2 * t,
            0 <= low <= 254,
            0 <= t < p,
    ;
    lemma_fundamental_div_mod_converse(2 * (b0 * p + t), 256 * p, high, value);
}

/// Doubling in the field of CMAC, byte by byte: each byte takes over the highest bit of the next,
/// and the bit that falls out at the top comes back as 0x87 at the bottom.
pub proof fn law_doubling(b: Seq<u8>, i: int)
    requires
        b.len() == 16,
        0 <= i < 15,
    ensures
        gf_double(b).len() == 16,
        gf_double(b)[i] as int == (2 * b[i]) % 256 + b[i + 1] as int / 128,
        b[0] < 128 ==> gf_double(b)[15] as int == (2 * b[15]) % 256,
        b[0] >= 128 ==> gf_double(b)[15] == ((2 * b[15]) % 256) as u8 ^ 0x87,
{
}

/// AES-CMAC chains the blocks of a message: `x` are the chaining values, from zero on, and `k1` and
/// `k2` the subkeys. A last block of sixteen bytes is masked with the first subkey; any other is
/// filled up with a one bit and zeros and masked with the second.
pub proof fn law_cmac_chains(
    key: Seq<u8>,
    message: Seq<u8>,
    x: Seq<Seq<u8>>,
    k1: Seq<u8>,
    k2: Seq<u8>,
)
    requires
        x.len() > 0,
        16 * (x.len() - 1) < message.len() <= 16 * x.len() || (message.len() == 0 && x.len() == 1),
        x[0] == Seq::new(16, |j: int| 0u8),
        forall|i: int| 0 <= i < x.len() ==> (#[trigger] x[i]).len() == 16,
        forall|i: int|
            0 < i < x.len() ==> #[trigger] x[i] == aes128(
                key,
                Seq::new(16, |j: int| x[i - 1][j] ^ message[16 * (i - 1) + j]),
            ),
        k1 == gf_double(aes128(key, Seq::new(16, |j: int| 0u8))),
        k2 == gf_double(k1),
        k1.len() == 16,
    ensures
        ({
            let rest = message.skip(16 * (x.len() - 1));
            let last = Seq::new(
                16,
                |j: int|
                    if rest.len() == 16 {
                        rest[j] ^ k1[j]
                    } else if j < rest.len() {
                        rest[j] ^ k2[j]
                    } else if j == rest.len() {
                        0x80u8 ^ k2[j]
                    } else {
                        0u8 ^ k2[j]
                    },
            );
            cmac(key, message) == aes128(key, Seq::new(16, |j: int| x.last()[j] ^ last[j]))
        }),
{
    let n = (x.len() - 1) as nat;
    assert(leading_blocks(message.len()) == n);
    assert(zeros(16) =~= Seq::new(16, |j: int| 0u8));
    lemma_chain_values(key, message, x, n);
    let rest = message.skip(16 * n as int);
    let last = masked_last_block(key, message);
    if rest.len() < 16 {
        assert(padded(rest).len() == 16);
    }
    assert(xor_bytes(x[n as int], last) =~= Seq::new(
        16,
        |j: int|
            x.last()[j] ^ Seq::new(
                16,
                |j: int|
                    if rest.len() == 16 {
                        rest[j] ^ k1[j]
                    } else if j < rest.len() {
                        rest[j] ^ k2[j]
                    } else if j == rest.len() {
                        0x80u8 ^ k2[j]
                    } else {
                        0u8 ^ k2[j]
                    },
            )[j],
    ));
}

proof fn lemma_chain_values(key: Seq<u8>, message: Seq<u8>, x: Seq<Seq<u8>>, n: nat)
    requires
        n < x.len(),
        16 * n <= message.len(),
        x[0] == zeros(16),
        forall|i: int| 0 <= i < x.len() ==> (#[trigger] x[i]).len() == 16,
        forall|i: int|
            0 < i < x.len() ==> #[trigger] x[i] == aes128(
                key,
                Seq::new(16, |j: int| x[i - 1][j] ^ message[16 * (i - 1) + j]),
            ),
    ensures
        cbc_chain(key, message, n) == x[n as int],
    decreases n,
{
    if n > 0 {
        lemma_chain_values(key, message, x, (n - 1) as nat);
        assert(xor_bytes(x[n - 1], message.subrange(16 * (n - 1), 16 * n as int)) =~= Seq::new(
            16,
            |j: int| x[n - 1][j] ^ message[16 * (n - 1) + j],
        ));
        assert(x[n as int] == aes128(
            key,
            Seq::new(16, |j: int| x[n - 1][j] ^ message[16 * (n - 1) + j]),
        ));
    }
}

/// What the keys of a mesh are derived by: CMACs under a key that is the CMAC of the given key
/// under a salt, which is the CMAC of a label under zero.
pub proof fn law_derivations(key: Seq<u8>, m: Seq<u8>)
    ensures
        mesh_salt(m) == cmac(Seq::new(16, |j: int| 0u8), m),
        ({
            let t = cmac(mesh_salt(seq![0x73u8, 0x6d, 0x6b, 0x32]), key);
            &&& k2_t1(key) == cmac(t, seq![0x00u8, 0x01])
            &&& k2_t2(key) == cmac(t, k2_t1(key) + seq![0x00u8, 0x02])
            &&& k2_t3(key) == cmac(t, k2_t2(key) + seq![0x00u8, 0x03])
        }),
        k4_block(key) == cmac(
            cmac(mesh_salt(seq![0x73u8, 0x6d, 0x6b, 0x34]), key),
            seq![0x69u8, 0x64, 0x36, 0x01],
        ),
{
    assert(zeros(16) =~= Seq::new(16, |j: int| 0u8));
}

/// The privacy mask is what AES makes of five zero bytes, the IV index and seven bytes of the
/// message.
pub proof fn law_privacy_mask(priv_key: Seq<u8>, iv: u32, random: Seq<u8>)
    ensures
        pecb(priv_key, iv, random) == aes128(
            priv_key,
            seq![
                0u8,
                0,
                0,
                0,
                0,
                (iv / 16777216) as u8,
                (iv / 65536 % 256) as u8,
                (iv / 256 % 256) as u8,
                (iv % 256) as u8,
            ] + random,
        ),
{
    law_four_bytes(iv);
    assert(privacy_plaintext(iv, random) =~= seq![
        0u8,
        0,
        0,
        0,
        0,
        (iv / 16777216) as u8,
        (iv / 65536 % 256) as u8,
        (iv / 256 % 256) as u8,
        (iv % 256) as u8,
    ] + random);
}

/// What was sealed with a length that fits is opened by the key and the nonce alone; what is too
/// long for that never opens.
pub proof fn law_opening(key: Seq<u8>, nonce: Seq<u8>, sealed: Seq<u8>)
    ensures
        sealed.len() <= 65539 ==> opened(key, nonce, sealed) == ccm_open(key, nonce, sealed),
        sealed.len() > 65539 ==> opened(key, nonce, sealed) is None,
{
}

} // verus!
