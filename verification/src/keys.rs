//! Keys as they stand in the configuration: hexadecimal text.

use vstd::prelude::*;
use vstd::utf8::encode_utf8;

verus! {

/// Why a text is no hexadecimal byte string.
#[derive(Debug, Clone, Copy, PartialEq, Eq)]
pub enum HexError {
    OddLength,
    InvalidLength,
    InvalidCharacter { c: char, index: usize },
}

/// Whether `b` is a hexadecimal digit.
pub open spec fn is_hex(b: u8) -> bool {
    0x30 <= b <= 0x39 || 0x41 <= b <= 0x46 || 0x61 <= b <= 0x66
}

/// The value of a hexadecimal digit.
pub open spec fn hex_digit_value(b: u8) -> int {
    if b <= 0x39 {
        b - 0x30
    } else if b <= 0x46 {
        b - 0x41 + 10
    } else {
        b - 0x61 + 10
    }
}

/// The bytes that pairs of hexadecimal digits stand for.
pub open spec fn hex_bytes(digits: Seq<u8>) -> Seq<u8> {
    Seq::new(
        digits.len() / 2,
        |i: int|
            (16 * hex_digit_value(digits[2 * i]) + hex_digit_value(digits[2 * i + 1])) as u8,
    )
}

/// Whether the first `n` bytes of `s` are hexadecimal digits.
pub open spec fn hex_up_to(s: Seq<u8>, n: int) -> bool {
    forall|i: int| 0 <= i < n ==> is_hex(#[trigger] s[i])
}

/// What decoding the bytes `s` of a text comes to.
pub open spec fn hex_outcome(s: Seq<u8>, r: Result<Seq<u8>, HexError>) -> bool {
    match r {
        Ok(bytes) => s.len() % 2 == 0 && hex_up_to(s, s.len() as int) && bytes == hex_bytes(s),
        Err(HexError::OddLength) => s.len() % 2 != 0,
        Err(HexError::InvalidCharacter { c, index }) => {
            &&& s.len() % 2 == 0
            &&& index < s.len()
            &&& hex_up_to(s, index as int)
            &&& !is_hex(s[index as int])
            &&& c == s[index as int] as char
        },
        Err(HexError::InvalidLength) => false,
    }
}

/// Decodes by `hex::decode`.
///
/// The text is taken byte by byte. An odd number of bytes is reported before anything else, and
/// then the first byte that is no hexadecimal digit; otherwise each pair of digits gives a byte,
/// the high half first.
#[verifier::external_body]
pub(crate) fn hex_decode(text: &str) -> (r: Result<Vec<u8>, HexError>)
    ensures
        match r {
            Ok(bytes) => hex_outcome(encode_utf8(text@), Ok(bytes@)),
            Err(e) => hex_outcome(encode_utf8(text@), Err(e)),
        },
{
    hex::decode(text).map_err(|e| match e {
        hex::FromHexError::OddLength => HexError::OddLength,
        hex::FromHexError::InvalidStringLength => HexError::InvalidLength,
        hex::FromHexError::InvalidHexCharacter { c, index } => HexError::InvalidCharacter {
            c,
            index,
        },
    })
}

/// Which key of the configuration is wrong, and how.
#[derive(Debug, Clone, Copy, PartialEq, Eq)]
pub enum KeyError {
    NetKeyHex(HexError),
    AppKeyHex(HexError),
    NetKeyLength,
    AppKeyLength,
}

/// What reading the two keys comes to: a text that is not hexadecimal is reported before a
/// length that is not sixteen bytes, and the network key before the application key.
pub open spec fn keys_outcome(
    net_key: Seq<char>,
    app_key: Seq<char>,
    r: Result<(Seq<u8>, Seq<u8>), KeyError>,
) -> bool {
    let net = encode_utf8(net_key);
    let app = encode_utf8(app_key);
    let net_ok = hex_outcome(net, Ok(hex_bytes(net)));
    let app_ok = hex_outcome(app, Ok(hex_bytes(app)));
    match r {
        Err(KeyError::NetKeyHex(e)) => hex_outcome(net, Err(e)),
        Err(KeyError::AppKeyHex(e)) => net_ok && hex_outcome(app, Err(e)),
        Err(KeyError::NetKeyLength) => net_ok && app_ok && hex_bytes(net).len() != 16,
        Err(KeyError::AppKeyLength) => {
            &&& net_ok
            &&& app_ok
            &&& hex_bytes(net).len() == 16
            &&& hex_bytes(app).len() != 16
        },
        Ok((n, a)) => {
            &&& net_ok
            &&& app_ok
            &&& hex_bytes(net).len() == 16
            &&& hex_bytes(app).len() == 16
            &&& n == hex_bytes(net)
            &&& a == hex_bytes(app)
        },
    }
}

/// The sixteen bytes in `v`, where it holds that many.
fn key_block(v: &Vec<u8>) -> (r: Option<[u8; 16]>)
    ensures
        r is Some <==> v@.len() == 16,
        r matches Some(k) ==> k@ == v@,
{
    if v.len() != 16 {
        return None;
    }
    let mut k = [0u8; 16];
    let mut i: usize = 0;
    while i < 16
        invariant
            i <= 16,
            v@.len() == 16,
            forall|j: int| 0 <= j < i ==> k@[j] == v@[j],
        decreases 16 - i,
    {
        k[i] = v[i];
        i = i + 1;
    }
    assert(k@ =~= v@);
    Some(k)
}

/// Reads the network key and the application key.
pub fn parse_keys(net_key: &str, app_key: &str) -> (r: Result<([u8; 16], [u8; 16]), KeyError>)
    ensures
        match r {
            Ok((n, a)) => keys_outcome(net_key@, app_key@, Ok((n@, a@))),
            Err(e) => keys_outcome(net_key@, app_key@, Err(e)),
        },
{
    let net = match hex_decode(net_key) {
        Ok(v) => v,
        Err(e) => return Err(KeyError::NetKeyHex(e)),
    };
    let app = match hex_decode(app_key) {
        Ok(v) => v,
        Err(e) => return Err(KeyError::AppKeyHex(e)),
    };
    match (key_block(&net), key_block(&app)) {
        (Some(n), Some(a)) => Ok((n, a)),
        (None, _) => Err(KeyError::NetKeyLength),
        (Some(_), None) => Err(KeyError::AppKeyLength),
    }
}

/// The outcome of reading the keys is one and the same on every reading.
pub proof fn law_keys_outcome_unique(
    net_key: Seq<char>,
    app_key: Seq<char>,
    r1: Result<(Seq<u8>, Seq<u8>), KeyError>,
    r2: Result<(Seq<u8>, Seq<u8>), KeyError>,
)
    requires
        keys_outcome(net_key, app_key, r1),
        keys_outcome(net_key, app_key, r2),
    ensures
        r1 == r2,
{
    let net = encode_utf8(net_key);
    let app = encode_utf8(app_key);
    lemma_hex_error_unique(net);
    lemma_hex_error_unique(app);
}

proof fn lemma_hex_error_unique(s: Seq<u8>)
    ensures
        forall|e1: HexError, e2: HexError|
            #![trigger hex_outcome(s, Err(e1)), hex_outcome(s, Err(e2))]
            hex_outcome(s, Err(e1)) && hex_outcome(s, Err(e2)) ==> e1 == e2,
        forall|e: HexError|
            #[trigger] hex_outcome(s, Err(e)) ==> !hex_outcome(s, Ok(hex_bytes(s))),
{
    assert forall|e1: HexError, e2: HexError|
        #![trigger hex_outcome(s, Err(e1)), hex_outcome(s, Err(e2))]
        hex_outcome(s, Err(e1)) && hex_outcome(s, Err(e2)) implies e1 == e2 by {
        if let (
            HexError::InvalidCharacter { c: c1, index: i1 },
            HexError::InvalidCharacter { c: c2, index: i2 },
        ) = (e1, e2) {
            if i1 < i2 {
                assert(is_hex(s[i1 as int]));
            } else if i2 < i1 {
                assert(is_hex(s[i2 as int]));
            }
        }
    }
    assert forall|e: HexError| #[trigger] hex_outcome(s, Err(e)) implies !hex_outcome(
        s,
        Ok(hex_bytes(s)),
    ) by {
        if let HexError::InvalidCharacter { c, index } = e {
            if hex_up_to(s, s.len() as int) {
                assert(is_hex(s[index as int]));
            }
        }
    }
}

/// The keys that are read are the bytes that the two texts spell out, two digits for each byte.
pub proof fn law_keys_are_spelled_out(
    net_key: Seq<char>,
    app_key: Seq<char>,
    net: Seq<u8>,
    app: Seq<u8>,
    i: int,
)
    requires
        keys_outcome(net_key, app_key, Ok((net, app))),
        0 <= i < 16,
    ensures
        net.len() == 16,
        app.len() == 16,
        encode_utf8(net_key).len() == 32,
        encode_utf8(app_key).len() == 32,
        ({
            let value = |d: u8|
                if 0x30 <= d <= 0x39 {
                    d - 0x30
                } else if 0x41 <= d <= 0x46 {
                    d - 0x41 + 10
                } else {
                    d - 0x61 + 10
                };
            let digit = |d: u8|
                0x30 <= d <= 0x39 || 0x41 <= d <= 0x46 || 0x61 <= d <= 0x66;
            let n = encode_utf8(net_key);
            let a = encode_utf8(app_key);
            &&& digit(n[2 * i]) && digit(n[2 * i + 1]) && digit(a[2 * i]) && digit(a[2 * i + 1])
            &&& net[i] as int == 16 * value(n[2 * i]) + value(n[2 * i + 1])
            &&& app[i] as int == 16 * value(a[2 * i]) + value(a[2 * i + 1])
        }),
{
    let n = encode_utf8(net_key);
    let a = encode_utf8(app_key);
    assert(is_hex(n[2 * i]) && is_hex(n[2 * i + 1]));
    assert(is_hex(a[2 * i]) && is_hex(a[2 * i + 1]));
}

/// Two texts of 32 hexadecimal digits are keys; anything else is refused, for the first reason that
/// applies.
pub proof fn law_keys_are_accepted(
    net_key: Seq<char>,
    app_key: Seq<char>,
    r: Result<(Seq<u8>, Seq<u8>), KeyError>,
)
    requires
        keys_outcome(net_key, app_key, r),
    ensures
        ({
            let hex = |s: Seq<u8>|
                forall|i: int|
                    0 <= i < s.len() ==> (0x30 <= #[trigger] s[i] <= 0x39 || 0x41 <= s[i] <= 0x46
                        || 0x61 <= s[i] <= 0x66);
            let n = encode_utf8(net_key);
            let a = encode_utf8(app_key);
            let n_ok = n.len() % 2 == 0 && hex(n);
            let a_ok = a.len() % 2 == 0 && hex(a);
            &&& r is Ok <==> n_ok && a_ok && n.len() == 32 && a.len() == 32
            &&& r matches Err(KeyError::NetKeyHex(e)) ==> !n_ok && (e == HexError::OddLength <==> n.len()
                % 2 == 1)
            &&& r matches Err(KeyError::AppKeyHex(e)) ==> n_ok && !a_ok && (e == HexError::OddLength
                <==> a.len() % 2 == 1)
            &&& r == Err::<(Seq<u8>, Seq<u8>), KeyError>(KeyError::NetKeyLength) ==> n_ok && a_ok
                && n.len() != 32
            &&& r == Err::<(Seq<u8>, Seq<u8>), KeyError>(KeyError::AppKeyLength) ==> n_ok && a_ok
                && n.len() == 32 && a.len() != 32
        }),
{
    let n = encode_utf8(net_key);
    let a = encode_utf8(app_key);
    lemma_hex_or_not(n);
    lemma_hex_or_not(a);
    if let Err(KeyError::NetKeyHex(HexError::InvalidCharacter { c, index })) = r {
        assert(!is_hex(n[index as int]));
    }
    if let Err(KeyError::AppKeyHex(HexError::InvalidCharacter { c, index })) = r {
        assert(!is_hex(a[index as int]));
    }
}

proof fn lemma_hex_or_not(s: Seq<u8>)
    ensures
        hex_up_to(s, s.len() as int) <==> forall|i: int|
            0 <= i < s.len() ==> (0x30 <= #[trigger] s[i] <= 0x39 || 0x41 <= s[i] <= 0x46 || 0x61
                <= s[i] <= 0x66),
{
    if hex_up_to(s, s.len() as int) {
        assert forall|i: int| 0 <= i < s.len() implies (0x30 <= #[trigger] s[i] <= 0x39 || 0x41
            <= s[i] <= 0x46 || 0x61 <= s[i] <= 0x66) by {
            assert(is_hex(s[i]));
        }
    }
}

} // verus!
