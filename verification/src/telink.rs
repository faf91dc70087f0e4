//! Ten-byte command payloads of the fixtures.
//!
//! A payload is an 80-bit little-endian word. Its lowest byte is the sum of
//! the nine other bytes modulo 256, its highest byte is the command type, and
//! the parameters of the command are packed in the bits between.

use crate::octets::{le_bytes, le_value, lemma_le_bytes_len, lemma_le_value_of_bytes};
use vstd::arithmetic::div_mod::lemma_fundamental_div_mod_converse;
use vstd::arithmetic::power::pow;
use vstd::prelude::*;

verus! {

/// The weight of bit 12 of a payload.
pub const BIT_12: u128 = 0x1000;

/// The weight of bit 22 of a payload.
pub const BIT_22: u128 = 0x40_0000;

/// The weight of bit 32 of a payload.
pub const BIT_32: u128 = 0x1_0000_0000;

/// The weight of bit 34 of a payload.
pub const BIT_34: u128 = 0x4_0000_0000;

/// The weight of bit 36 of a payload.
pub const BIT_36: u128 = 0x10_0000_0000;

/// The weight of bit 37 of a payload.
pub const BIT_37: u128 = 0x20_0000_0000;

/// The weight of bit 42 of a payload.
pub const BIT_42: u128 = 0x400_0000_0000;

/// The weight of bit 45 of a payload.
pub const BIT_45: u128 = 0x2000_0000_0000;

/// The weight of bit 46 of a payload.
pub const BIT_46: u128 = 0x4000_0000_0000;

/// The weight of bit 47 of a payload.
pub const BIT_47: u128 = 0x8000_0000_0000;

/// The weight of bit 48 of a payload.
pub const BIT_48: u128 = 0x1_0000_0000_0000;

/// The weight of bit 51 of a payload.
pub const BIT_51: u128 = 0x8_0000_0000_0000;

/// The weight of bit 52 of a payload.
pub const BIT_52: u128 = 0x10_0000_0000_0000;

/// The weight of bit 53 of a payload.
pub const BIT_53: u128 = 0x20_0000_0000_0000;

/// The weight of bit 62 of a payload.
pub const BIT_62: u128 = 0x4000_0000_0000_0000;

/// The weight of bit 64 of a payload.
pub const BIT_64: u128 = 0x1_0000_0000_0000_0000;

/// The weight of bit 72 of a payload.
pub const BIT_72: u128 = 0x100_0000_0000_0000_0000;

/// The full scale of an intensity.
pub const MAX_INTENSITY: u16 = 1000;

/// The sum of `bytes`.
pub open spec fn byte_sum(bytes: Seq<u8>) -> nat
    decreases bytes.len(),
{
    if bytes.len() == 0 {
        0
    } else {
        bytes[0] as nat + byte_sum(bytes.drop_first())
    }
}

/// The payload whose bits 8 to 79 are those of `fields`, led by its checksum.
pub open spec fn payload(fields: nat) -> Seq<u8> {
    let body = le_bytes(fields / 256, 9);
    seq![(byte_sum(body) % 256) as u8] + body
}

/// The `width`-valued field of a payload that starts at the bit with weight `weight`.
pub open spec fn field(p: Seq<u8>, weight: nat, width: nat) -> nat {
    (le_value(p) / weight) % width
}

/// The smaller of two numbers.
pub open spec fn at_most(value: int, limit: int) -> int {
    if value < limit {
        value
    } else {
        limit
    }
}

/// `value` forced into the range from `low` to `high`.
pub open spec fn clamped(value: int, low: int, high: int) -> int {
    if value < low {
        low
    } else {
        at_most(value, high)
    }
}

/// Packs `fields` and puts the checksum in front.
fn build_payload(fields: u128) -> (p: [u8; 10])
    ensures
        p@ == payload(fields as nat),
{
    let mut p = [0u8; 10];
    let mut rest: u128 = fields / 256;
    let mut sum: u16 = 0;
    let mut i: usize = 1;
    let ghost body = le_bytes((fields / 256) as nat, 9);
    proof {
        lemma_le_bytes_len((fields / 256) as nat, 9);
        assert(body.subrange(0, 0) =~= Seq::<u8>::empty());
        assert(body.subrange(0, 9) =~= body);
    }
    while i < 10
        invariant
            1 <= i <= 10,
            body.len() == 9,
            p@.len() == 10,
            p@.subrange(1, i as int) == body.subrange(0, i - 1),
            body.subrange(i - 1, 9) == le_bytes(rest as nat, (10 - i) as nat),
            sum <= 255 * (i - 1),
            byte_sum(body) == sum + byte_sum(body.subrange(i - 1, 9)),
        decreases 10 - i,
    {
        let b: u8 = (rest % 256) as u8;
        let ghost tail = body.subrange(i - 1, 9);
        p[i] = b;
        sum = sum + b as u16;
        rest = rest / 256;
        proof {
            assert(tail[0] == b);
            assert(tail.drop_first() =~= body.subrange(i as int, 9));
            assert(tail.drop_first() =~= le_bytes(rest as nat, (9 - i) as nat));
            assert(p@.subrange(1, i + 1) =~= body.subrange(0, i as int));
        }
        i = i + 1;
    }
    p[0] = (sum % 256) as u8;
    proof {
        assert(p@.subrange(1, 10) =~= body.subrange(0, 9));
        assert(p@ =~= payload(fields as nat)) by {
            assert forall|k: int| 1 <= k < 10 implies p@[k] == body[k - 1] by {
                assert(p@[k] == p@.subrange(1, 10)[k - 1]);
            }
        }
    }
    p
}

/// The fields of [`telink_payload`].
pub open spec fn command_fields(cmd_type: u8, cmd_value: u8) -> nat {
    (cmd_value * BIT_64 + cmd_type * BIT_72) as nat
}

/// The fields of [`telink_brightness_payload`].
pub open spec fn brightness_fields(intensity: u16) -> nat {
    (at_most(intensity as int, 1000) * BIT_62 + 0x8f * BIT_72) as nat
}

/// A colour temperature in tens of kelvin, rounded and limited to what the fixtures take.
pub open spec fn cct_steps(kelvin: u16) -> int {
    clamped((kelvin + 5) / 10, 80, 2000)
}

/// The green-magenta shift as it is sent: ten more than the shift, modulo 128, so that the shifts
/// from -10 to 10 become 0 to 20. Shifts beyond -50 and 50 count as these.
///
/// What the fixtures are known to take are the values 0 to 20. That the other shifts go on from
/// there in both directions, in seven bits, is this library's own choice.
pub open spec fn shift_value(gm: i8) -> int {
    (clamped(gm as int, -50, 50) + 10) % 128
}

/// The fields of [`telink_cct_payload`]: steps up to 1000 are sent as they are, those above
/// as the excess over 1000 with bit 42 set.
pub open spec fn cct_fields(kelvin: u16, intensity: u16, gm: i8) -> nat {
    let steps = cct_steps(kelvin);
    let (value, high) = if steps <= 1000 {
        (steps, 0int)
    } else {
        (steps - 1000, 1int)
    };
    (high * BIT_42 + shift_value(gm) * BIT_45 + value * BIT_52 + at_most(
        intensity as int,
        1000,
    ) * BIT_62 + 0x82 * BIT_72) as nat
}

/// The fields of [`telink_hsi_payload`].
pub open spec fn hsi_fields(hue: u16, saturation: u16, intensity: u16) -> nat {
    (at_most(saturation as int, 100) * BIT_46 + at_most(hue as int, 360) * BIT_53 + at_most(
        intensity as int,
        1000,
    ) * BIT_62 + 0x81 * BIT_72) as nat
}

/// The fields of [`telink_rgbww_payload`].
pub open spec fn rgbww_fields(r: u16, g: u16, b: u16, ww: u16, cw: u16, intensity: u16) -> nat {
    (at_most(intensity as int, 1000) * BIT_12 + at_most(ww as int, 1000) * BIT_22 + at_most(
        cw as int,
        1000,
    ) * BIT_32 + at_most(b as int, 1000) * BIT_42 + at_most(g as int, 1000) * BIT_52 + at_most(
        r as int,
        1000,
    ) * BIT_62 + 0x84 * BIT_72) as nat
}

/// The fields of [`telink_gel_payload`]: a colour temperature number above 1000 is sent as the
/// low ten bits of that number plus 24, with bit 36 set.
pub open spec fn gel_fields(cct: u16, number: u16, series: u8, brand: u8, intensity: u16) -> nat {
    let c = at_most(cct as int, 10000);
    let (value, high) = if c <= 1000 {
        (c, 0int)
    } else {
        ((c + 24) % 1024, 1int)
    };
    (high * BIT_36 + (number % 1024) * BIT_37 + (series % 16) * BIT_47 + (brand % 2) * BIT_51
        + value * BIT_52 + at_most(intensity as int, 1000) * BIT_62 + 0x83 * BIT_72) as nat
}

/// The fields of [`telink_xy_payload`].
pub open spec fn xy_fields(x: u16, y: u16, intensity: u16) -> nat {
    ((y % 0x4000) * BIT_34 + (x % 0x4000) * BIT_48 + at_most(intensity as int, 1000) * BIT_62
        + 0x85 * BIT_72) as nat
}

fn limit(value: u16, max: u16) -> (r: u128)
    ensures
        r == at_most(value as int, max as int),
{
    if value < max {
        value as u128
    } else {
        max as u128
    }
}

/// The command `cmd_type` with the one-byte parameter `cmd_value`.
pub fn telink_payload(cmd_type: u8, cmd_value: u8) -> (p: [u8; 10])
    ensures
        p@ == payload(command_fields(cmd_type, cmd_value)),
{
    build_payload(cmd_value as u128 * BIT_64 + cmd_type as u128 * BIT_72)
}

/// Sets the brightness, in thousandths of full scale.
pub fn telink_brightness_payload(intensity: u16) -> (p: [u8; 10])
    ensures
        p@ == payload(brightness_fields(intensity)),
{
    build_payload(limit(intensity, MAX_INTENSITY) * BIT_62 + 0x8f * BIT_72)
}

/// Sets a white of the given colour temperature, brightness and green-magenta shift.
pub fn telink_cct_payload(kelvin: u16, intensity: u16, gm: i8) -> (p: [u8; 10])
    ensures
        p@ == payload(cct_fields(kelvin, intensity, gm)),
{
    let v: u128 = limit(intensity, MAX_INTENSITY);
    let rounded: u32 = (kelvin as u32 + 5) / 10;
    let steps: u32 = if rounded < 80 {
        80
    } else if rounded > 2000 {
        2000
    } else {
        rounded
    };
    let limited: i16 = if gm < -50 {
        -50
    } else if gm > 50 {
        50
    } else {
        gm as i16
    };
    let g: u128 = if limited < -10 {
        (limited + 138) as u128
    } else {
        (limited + 10) as u128
    };
    let (value, high): (u32, u128) = if steps <= 1000 {
        (steps, 0)
    } else {
        (steps - 1000, 1)
    };
    build_payload(high * BIT_42 + g * BIT_45 + value as u128 * BIT_52 + v * BIT_62 + 0x82 * BIT_72)
}

/// Sets a colour by hue in degrees, saturation in percent and brightness.
pub fn telink_hsi_payload(hue: u16, saturation: u16, intensity: u16) -> (p: [u8; 10])
    ensures
        p@ == payload(hsi_fields(hue, saturation, intensity)),
{
    build_payload(
        limit(saturation, 100) * BIT_46 + limit(hue, 360) * BIT_53 + limit(intensity, MAX_INTENSITY)
            * BIT_62 + 0x81 * BIT_72,
    )
}

/// Sets the five emitters and the brightness, each in thousandths.
pub fn telink_rgbww_payload(r: u16, g: u16, b: u16, ww: u16, cw: u16, intensity: u16) -> (p: [u8;
    10])
    ensures
        p@ == payload(rgbww_fields(r, g, b, ww, cw, intensity)),
{
    build_payload(
        limit(intensity, MAX_INTENSITY) * BIT_12 + limit(ww, MAX_INTENSITY) * BIT_22 + limit(
            cw,
            MAX_INTENSITY,
        ) * BIT_32 + limit(b, MAX_INTENSITY) * BIT_42 + limit(g, MAX_INTENSITY) * BIT_52 + limit(
            r,
            MAX_INTENSITY,
        ) * BIT_62 + 0x84 * BIT_72,
    )
}

/// Selects a gel by brand, series and number over a base colour temperature.
pub fn telink_gel_payload(cct: u16, number: u16, series: u8, brand: u8, intensity: u16) -> (p: [u8;
    10])
    ensures
        p@ == payload(gel_fields(cct, number, series, brand, intensity)),
{
    let v: u128 = limit(intensity, MAX_INTENSITY);
    let c: u128 = limit(cct, 10000);
    let (value, high): (u128, u128) = if c <= 1000 {
        (c, 0)
    } else {
        ((c + 24) % 1024, 1)
    };
    build_payload(
        high * BIT_36 + (number % 1024) as u128 * BIT_37 + (series % 16) as u128 * BIT_47 + (brand
            % 2) as u128 * BIT_51 + value * BIT_52 + v * BIT_62 + 0x83 * BIT_72,
    )
}

/// Sets a colour by its CIE chromaticity coordinates.
pub fn telink_xy_payload(x: u16, y: u16, intensity: u16) -> (p: [u8; 10])
    ensures
        p@ == payload(xy_fields(x, y, intensity)),
{
    build_payload(
        (y % 0x4000) as u128 * BIT_34 + (x % 0x4000) as u128 * BIT_48 + limit(
            intensity,
            MAX_INTENSITY,
        ) * BIT_62 + 0x85 * BIT_72,
    )
}

/// Selects the dimming curve.
pub fn telink_dim_curve_payload(curve: u8) -> (p: [u8; 10])
    ensures
        p@ == payload(command_fields(0x88, curve)),
{
    telink_payload(0x88, curve)
}

/// Asks for the data that the command `cmd_type` would set.
pub fn telink_read_data_payload(cmd_type: u8) -> (p: [u8; 10])
    ensures
        p@ == payload(command_fields(cmd_type, 0)),
{
    telink_payload(cmd_type, 0)
}

/// What the bytes of a payload amount to: the fields above the checksum.
proof fn lemma_payload_value(fields: nat)
    requires
        fields < 256 * BIT_72,
    ensures
        le_value(payload(fields)) == (byte_sum(le_bytes(fields / 256, 9)) % 256) + 256 * (fields
            / 256),
{
    let body = le_bytes(fields / 256, 9);
    assert(pow(256, 9) == BIT_72) by {
        reveal_with_fuel(pow, 10);
    }
    lemma_le_value_of_bytes(fields / 256, 9);
    assert(payload(fields).drop_first() =~= body);
}

/// A digit in a mixed-radix number: what stands below it and above it does not matter.
proof fn lemma_digit(total: int, above: int, value: int, below: int, weight: int, width: int)
    requires
        0 < weight,
        0 <= value < width,
        0 <= below < weight,
        total == (above * width + value) * weight + below,
    ensures
        (total / weight) % width == value,
{
    lemma_fundamental_div_mod_converse(total, weight, above * width + value, below);
    lemma_fundamental_div_mod_converse(above * width + value, width, above, value);
}

/// The first byte of every payload is the sum of the other nine modulo 256.
pub proof fn law_checksum(fields: nat)
    ensures
        payload(fields).len() == 10,
        payload(fields)[0] == byte_sum(payload(fields).skip(1)) % 256,
{
    lemma_le_bytes_len(fields / 256, 9);
    assert(payload(fields).skip(1) =~= le_bytes(fields / 256, 9));
}

/// A plain command reads back as its type and its value.
#[verifier::spinoff_prover]
pub proof fn law_command_reads_back(cmd_type: u8, cmd_value: u8)
    ensures
        field(payload(command_fields(cmd_type, cmd_value)), BIT_72 as nat, 256) == cmd_type,
        field(payload(command_fields(cmd_type, cmd_value)), BIT_64 as nat, 256) == cmd_value,
{
    let f = command_fields(cmd_type, cmd_value);
    lemma_payload_value(f);
    let t = le_value(payload(f)) as int;
    let low = (t % 256) as int;
    assert(t == f + low);
    lemma_digit(t, cmd_type as int, cmd_value as int, low, BIT_64 as int, 256);
    lemma_digit(t, 0, cmd_type as int, cmd_value * BIT_64 + low, BIT_72 as int, 256);
}

/// A brightness payload reads back as its command type and the intensity, at most 1000.
#[verifier::spinoff_prover]
pub proof fn law_brightness_reads_back(intensity: u16)
    ensures
        ({
            let p = payload(brightness_fields(intensity));
            &&& field(p, BIT_72 as nat, 256) == 0x8f
            &&& field(p, BIT_62 as nat, 1024) == at_most(intensity as int, 1000)
        }),
{
    let v = at_most(intensity as int, 1000);
    let f = brightness_fields(intensity);
    lemma_payload_value(f);
    let t = le_value(payload(f)) as int;
    let low = (t % 256) as int;
    assert(t == f + low);
    lemma_digit(t, 0x8f, v, low, BIT_62 as int, 1024);
    lemma_digit(t, 0, 0x8f, v * BIT_62 + low, BIT_72 as int, 256);
}

/// A white payload reads back as its command type, the intensity, the colour temperature steps
/// and the shift.
#[verifier::spinoff_prover]
pub proof fn law_cct_reads_back(kelvin: u16, intensity: u16, gm: i8)
    ensures
        ({
            let p = payload(cct_fields(kelvin, intensity, gm));
            &&& field(p, BIT_72 as nat, 256) == 0x82
            &&& field(p, BIT_62 as nat, 1024) == at_most(intensity as int, 1000)
            &&& field(p, BIT_52 as nat, 1024) + 1000 * field(p, BIT_42 as nat, 2) == cct_steps(
                kelvin,
            )
            &&& field(p, BIT_45 as nat, 128) == shift_value(gm)
            &&& 800 <= kelvin <= 20000 ==> -5 <= 10 * (field(p, BIT_52 as nat, 1024) + 1000 * field(
                p,
                BIT_42 as nat,
                2,
            )) - kelvin <= 5
        }),
{
    let v = at_most(intensity as int, 1000);
    let g = shift_value(gm);
    let steps = cct_steps(kelvin);
    let (value, high) = if steps <= 1000 {
        (steps, 0int)
    } else {
        (steps - 1000, 1int)
    };
    let f = cct_fields(kelvin, intensity, gm);
    lemma_payload_value(f);
    let t = le_value(payload(f)) as int;
    let low = (t % 256) as int;
    assert(t == f + low);
    lemma_digit(
        t,
        g * 0x4 + value * 0x200 + v * 0x80000 + 0x82 * 0x20000000,
        high,
        low,
        BIT_42 as int,
        2,
    );
    lemma_digit(t, value + v * 0x400 + 0x82 * 0x100000, g, high * BIT_42 + low, BIT_45 as int, 128);
    lemma_digit(t, v + 0x82 * 0x400, value, high * BIT_42 + g * BIT_45 + low, BIT_52 as int, 1024);
    lemma_digit(t, 0x82, v, high * BIT_42 + g * BIT_45 + value * BIT_52 + low, BIT_62 as int, 1024);
    lemma_digit(
        t,
        0,
        0x82,
        high * BIT_42 + g * BIT_45 + value * BIT_52 + v * BIT_62 + low,
        BIT_72 as int,
        256,
    );
}

/// Every shift from -50 to 50 has a payload of its own.
pub proof fn law_shifts_apart(kelvin: u16, intensity: u16, g1: i8, g2: i8)
    requires
        -50 <= g1 < g2 <= 50,
    ensures
        payload(cct_fields(kelvin, intensity, g1)) != payload(cct_fields(kelvin, intensity, g2)),
{
    law_cct_reads_back(kelvin, intensity, g1);
    law_cct_reads_back(kelvin, intensity, g2);
}

/// A colour payload reads back as its command type, the intensity, the hue and the saturation.
#[verifier::spinoff_prover]
pub proof fn law_hsi_reads_back(hue: u16, saturation: u16, intensity: u16)
    ensures
        ({
            let p = payload(hsi_fields(hue, saturation, intensity));
            &&& field(p, BIT_72 as nat, 256) == 0x81
            &&& field(p, BIT_62 as nat, 1024) == at_most(intensity as int, 1000)
            &&& field(p, BIT_53 as nat, 512) == at_most(hue as int, 360)
            &&& field(p, BIT_46 as nat, 128) == at_most(saturation as int, 100)
        }),
{
    let v = at_most(intensity as int, 1000);
    let h = at_most(hue as int, 360);
    let s = at_most(saturation as int, 100);
    let f = hsi_fields(hue, saturation, intensity);
    lemma_payload_value(f);
    let t = le_value(payload(f)) as int;
    let low = (t % 256) as int;
    assert(t == f + low);
    lemma_digit(t, h + v * 0x200 + 0x81 * 0x80000, s, low, BIT_46 as int, 128);
    lemma_digit(t, v + 0x81 * 0x400, h, s * BIT_46 + low, BIT_53 as int, 512);
    lemma_digit(t, 0x81, v, s * BIT_46 + h * BIT_53 + low, BIT_62 as int, 1024);
    lemma_digit(t, 0, 0x81, s * BIT_46 + h * BIT_53 + v * BIT_62 + low, BIT_72 as int, 256);
}

/// An emitter payload reads back as its command type and its six levels.
#[verifier::spinoff_prover]
pub proof fn law_rgbww_reads_back(r: u16, g: u16, b: u16, ww: u16, cw: u16, intensity: u16)
    ensures
        ({
            let p = payload(rgbww_fields(r, g, b, ww, cw, intensity));
            &&& field(p, BIT_72 as nat, 256) == 0x84
            &&& field(p, BIT_62 as nat, 1024) == at_most(r as int, 1000)
            &&& field(p, BIT_52 as nat, 1024) == at_most(g as int, 1000)
            &&& field(p, BIT_42 as nat, 1024) == at_most(b as int, 1000)
            &&& field(p, BIT_32 as nat, 1024) == at_most(cw as int, 1000)
            &&& field(p, BIT_22 as nat, 1024) == at_most(ww as int, 1000)
            &&& field(p, BIT_12 as nat, 1024) == at_most(intensity as int, 1000)
        }),
{
    let v = at_most(intensity as int, 1000);
    let r1 = at_most(r as int, 1000);
    let g1 = at_most(g as int, 1000);
    let b1 = at_most(b as int, 1000);
    let c1 = at_most(cw as int, 1000);
    let w1 = at_most(ww as int, 1000);
    let f = rgbww_fields(r, g, b, ww, cw, intensity);
    lemma_payload_value(f);
    let t = le_value(payload(f)) as int;
    let low = (t % 256) as int;
    assert(t == f + low);
    lemma_digit(
        t,
        w1 + c1 * 0x400 + b1 * 0x100000 + g1 * 0x40000000 + r1 * 0x10000000000 + 0x84 * 0x4000000000000,
        v,
        low,
        BIT_12 as int,
        1024,
    );
    lemma_digit(
        t,
        c1 + b1 * 0x400 + g1 * 0x100000 + r1 * 0x40000000 + 0x84 * 0x10000000000,
        w1,
        v * BIT_12 + low,
        BIT_22 as int,
        1024,
    );
    lemma_digit(
        t,
        b1 + g1 * 0x400 + r1 * 0x100000 + 0x84 * 0x40000000,
        c1,
        v * BIT_12 + w1 * BIT_22 + low,
        BIT_32 as int,
        1024,
    );
    lemma_digit(
        t,
        g1 + r1 * 0x400 + 0x84 * 0x100000,
        b1,
        v * BIT_12 + w1 * BIT_22 + c1 * BIT_32 + low,
        BIT_42 as int,
        1024,
    );
    lemma_digit(
        t,
        r1 + 0x84 * 0x400,
        g1,
        v * BIT_12 + w1 * BIT_22 + c1 * BIT_32 + b1 * BIT_42 + low,
        BIT_52 as int,
        1024,
    );
    lemma_digit(
        t,
        0x84,
        r1,
        v * BIT_12 + w1 * BIT_22 + c1 * BIT_32 + b1 * BIT_42 + g1 * BIT_52 + low,
        BIT_62 as int,
        1024,
    );
    lemma_digit(
        t,
        0,
        0x84,
        v * BIT_12 + w1 * BIT_22 + c1 * BIT_32 + b1 * BIT_42 + g1 * BIT_52 + r1 * BIT_62 + low,
        BIT_72 as int,
        256,
    );
}

/// A gel payload reads back as its command type, the intensity, the brand, the series and the
/// number, each as far as its field is wide.
#[verifier::spinoff_prover]
pub proof fn law_gel_reads_back(cct: u16, number: u16, series: u8, brand: u8, intensity: u16)
    ensures
        ({
            let p = payload(gel_fields(cct, number, series, brand, intensity));
            let c = at_most(cct as int, 10000);
            &&& field(p, BIT_72 as nat, 256) == 0x83
            &&& field(p, BIT_62 as nat, 1024) == at_most(intensity as int, 1000)
            &&& field(p, BIT_51 as nat, 2) == brand % 2
            &&& field(p, BIT_47 as nat, 16) == series % 16
            &&& field(p, BIT_37 as nat, 1024) == number % 1024
            &&& field(p, BIT_36 as nat, 2) == if c <= 1000 {
                0nat
            } else {
                1
            }
            &&& field(p, BIT_52 as nat, 1024) == if c <= 1000 {
                c
            } else {
                (c + 24) % 1024
            }
        }),
{
    let v = at_most(intensity as int, 1000);
    let c = at_most(cct as int, 10000);
    let (value, high) = if c <= 1000 {
        (c, 0int)
    } else {
        ((c + 24) % 1024, 1int)
    };
    let b1 = (brand % 2) as int;
    let s1 = (series % 16) as int;
    let n1 = (number % 1024) as int;
    let f = gel_fields(cct, number, series, brand, intensity);
    lemma_payload_value(f);
    let t = le_value(payload(f)) as int;
    let low = (t % 256) as int;
    assert(t == f + low);
    lemma_digit(
        t,
        n1 + s1 * 0x400 + b1 * 0x4000 + value * 0x8000 + v * 0x2000000 + 0x83 * 0x800000000,
        high,
        low,
        BIT_36 as int,
        2,
    );
    lemma_digit(
        t,
        s1 + b1 * 0x10 + value * 0x20 + v * 0x8000 + 0x83 * 0x2000000,
        n1,
        high * BIT_36 + low,
        BIT_37 as int,
        1024,
    );
    lemma_digit(
        t,
        b1 + value * 0x2 + v * 0x800 + 0x83 * 0x200000,
        s1,
        high * BIT_36 + n1 * BIT_37 + low,
        BIT_47 as int,
        16,
    );
    lemma_digit(
        t,
        value + v * 0x400 + 0x83 * 0x100000,
        b1,
        high * BIT_36 + n1 * BIT_37 + s1 * BIT_47 + low,
        BIT_51 as int,
        2,
    );
    lemma_digit(
        t,
        v + 0x83 * 0x400,
        value,
        high * BIT_36 + n1 * BIT_37 + s1 * BIT_47 + b1 * BIT_51 + low,
        BIT_52 as int,
        1024,
    );
    lemma_digit(
        t,
        0x83,
        v,
        high * BIT_36 + n1 * BIT_37 + s1 * BIT_47 + b1 * BIT_51 + value * BIT_52 + low,
        BIT_62 as int,
        1024,
    );
    lemma_digit(
        t,
        0,
        0x83,
        high * BIT_36 + n1 * BIT_37 + s1 * BIT_47 + b1 * BIT_51 + value * BIT_52 + v * BIT_62 + low,
        BIT_72 as int,
        256,
    );
}

/// A chromaticity payload reads back as its command type, the intensity and the low fourteen
/// bits of the coordinates.
#[verifier::spinoff_prover]
pub proof fn law_xy_reads_back(x: u16, y: u16, intensity: u16)
    ensures
        ({
            let p = payload(xy_fields(x, y, intensity));
            &&& field(p, BIT_72 as nat, 256) == 0x85
            &&& field(p, BIT_62 as nat, 1024) == at_most(intensity as int, 1000)
            &&& field(p, BIT_48 as nat, 0x4000) == x % 0x4000
            &&& field(p, BIT_34 as nat, 0x4000) == y % 0x4000
        }),
{
    let v = at_most(intensity as int, 1000);
    let x1 = (x % 0x4000) as int;
    let y1 = (y % 0x4000) as int;
    let f = xy_fields(x, y, intensity);
    lemma_payload_value(f);
    let t = le_value(payload(f)) as int;
    let low = (t % 256) as int;
    assert(t == f + low);
    lemma_digit(t, x1 + v * 0x4000 + 0x85 * 0x1000000, y1, low, BIT_34 as int, 16384);
    lemma_digit(t, v + 0x85 * 0x400, x1, y1 * BIT_34 + low, BIT_48 as int, 16384);
    lemma_digit(t, 0x85, v, y1 * BIT_34 + x1 * BIT_48 + low, BIT_62 as int, 1024);
    lemma_digit(t, 0, 0x85, y1 * BIT_34 + x1 * BIT_48 + v * BIT_62 + low, BIT_72 as int, 256);
}

/// A number and one byte below it, in one step.
proof fn lemma_byte_step(low: int, rest: int)
    requires
        0 <= low < 256,
        0 <= rest,
    ensures
        (low + 256 * rest) % 256 == low,
        (low + 256 * rest) / 256 == rest,
{
}

/// The bytes behind the checksum are those of the fields, the lowest first.
#[verifier::spinoff_prover]
proof fn lemma_payload_bytes(f: int, b: Seq<int>)
    requires
        b.len() == 10,
        forall|i: int| 0 <= i < 10 ==> 0 <= #[trigger] b[i] < 256,
        f == b[1] * 0x100 + b[2] * 0x1_0000 + b[3] * 0x100_0000 + b[4] * 0x1_0000_0000 + b[5]
            * 0x100_0000_0000 + b[6] * 0x1_0000_0000_0000 + b[7] * 0x100_0000_0000_0000 + b[8]
            * 0x1_0000_0000_0000_0000 + b[9] * 0x100_0000_0000_0000_0000,
    ensures
        payload(f as nat).len() == 10,
        forall|i: int| 1 <= i < 10 ==> #[trigger] payload(f as nat)[i] == b[i],
{
    let h9 = b[9];
    let h8 = b[8] + 256 * h9;
    let h7 = b[7] + 256 * h8;
    let h6 = b[6] + 256 * h7;
    let h5 = b[5] + 256 * h6;
    let h4 = b[4] + 256 * h5;
    let h3 = b[3] + 256 * h4;
    let h2 = b[2] + 256 * h3;
    let h1 = b[1] + 256 * h2;
    assert(f == 256 * h1);
    lemma_byte_step(0, h1);
    lemma_byte_step(b[1], h2);
    lemma_byte_step(b[2], h3);
    lemma_byte_step(b[3], h4);
    lemma_byte_step(b[4], h5);
    lemma_byte_step(b[5], h6);
    lemma_byte_step(b[6], h7);
    lemma_byte_step(b[7], h8);
    lemma_byte_step(b[8], h9);
    lemma_byte_step(b[9], 0);
    reveal_with_fuel(le_bytes, 10);
    let body = le_bytes(h1 as nat, 9);
    assert(body =~= seq![
        b[1] as u8,
        b[2] as u8,
        b[3] as u8,
        b[4] as u8,
        b[5] as u8,
        b[6] as u8,
        b[7] as u8,
        b[8] as u8,
        b[9] as u8,
    ]);
    assert(payload(f as nat) == seq![(byte_sum(body) % 256) as u8] + body);
    assert forall|i: int| 1 <= i < 10 implies #[trigger] payload(f as nat)[i] == b[i] by {
        assert(payload(f as nat)[i] == body[i - 1]);
    }
}

/// The first byte of a payload is what the other nine add up to, modulo 256.
pub proof fn law_first_byte_sums_the_rest(fields: nat)
    ensures
        payload(fields).len() == 10,
        payload(fields)[0] as int == (payload(fields)[1] + payload(fields)[2] + payload(fields)[3]
            + payload(fields)[4] + payload(fields)[5] + payload(fields)[6] + payload(fields)[7]
            + payload(fields)[8] + payload(fields)[9]) % 256,
{
    let p = payload(fields);
    let body = le_bytes(fields / 256, 9);
    lemma_le_bytes_len(fields / 256, 9);
    reveal_with_fuel(byte_sum, 10);
    assert(byte_sum(body) == body[0] + body[1] + body[2] + body[3] + body[4] + body[5] + body[6]
        + body[7] + body[8]);
    assert forall|i: int| 0 <= i < 9 implies p[i + 1] == body[i] by {}
}

/// A command is its type in the last byte and its value in the one before; nothing else.
#[verifier::spinoff_prover]
pub proof fn law_command_bytes(cmd_type: u8, cmd_value: u8)
    ensures
        ({
            let p = payload(command_fields(cmd_type, cmd_value));
            &&& p[9] == cmd_type
            &&& p[8] == cmd_value
            &&& p[1] == 0 && p[2] == 0 && p[3] == 0 && p[4] == 0 && p[5] == 0 && p[6] == 0
            &&& p[7] == 0
        }),
{
    let f = command_fields(cmd_type, cmd_value);
    lemma_payload_bytes(
        f as int,
        seq![0, 0, 0, 0, 0, 0, 0, 0, cmd_value as int, cmd_type as int],
    );
}

/// A brightness is its thousandths, at most 1000, in the ten bits below the type.
#[verifier::spinoff_prover]
pub proof fn law_brightness_bytes(intensity: u16)
    ensures
        ({
            let p = payload(brightness_fields(intensity));
            &&& p[9] == 0x8f
            &&& intensity <= 1000 ==> 4 * p[8] + p[7] / 64 == intensity
            &&& intensity > 1000 ==> 4 * p[8] + p[7] / 64 == 1000
            &&& p[1] == 0 && p[2] == 0 && p[3] == 0 && p[4] == 0 && p[5] == 0 && p[6] == 0
            &&& p[7] % 64 == 0
        }),
{
    let v = at_most(intensity as int, 1000);
    let b = seq![0int, 0, 0, 0, 0, 0, 0, 64 * (v % 4), v / 4, 0x8f];
    lemma_payload_bytes(brightness_fields(intensity) as int, b);
    let p = payload(brightness_fields(intensity));
    assert(p[7] == b[7] && p[8] == b[8] && p[9] == b[9]);
}

/// A white in bytes. The colour temperature that is sent is within five kelvin of the one asked
/// for, from 800 to 20000 kelvin, and at the nearer end beyond; the shift is sent as ten more
/// than it, modulo 128, from -50 to 50.
#[verifier::spinoff_prover]
pub proof fn law_white_bytes(kelvin: u16, intensity: u16, gm: i8)
    ensures
        ({
            let p = payload(cct_fields(kelvin, intensity, gm));
            let tens = (p[7] % 64) * 16 + p[6] / 16 + 1000 * (p[5] / 4 % 2);
            let shift = (p[6] % 16) * 8 + p[5] / 32;
            &&& p[9] == 0x82
            &&& intensity <= 1000 ==> 4 * p[8] + p[7] / 64 == intensity
            &&& intensity > 1000 ==> 4 * p[8] + p[7] / 64 == 1000
            &&& 800 <= kelvin <= 20000 ==> -5 <= 10 * tens - kelvin <= 5
            &&& 795 <= kelvin <= 20004 ==> 10 * tens <= kelvin + 5 < 10 * tens + 10
            &&& kelvin < 800 ==> tens == 80
            &&& kelvin > 20000 ==> tens == 2000
            &&& tens <= 1000 <==> p[5] / 4 % 2 == 0
            &&& -10 <= gm <= 50 ==> shift == gm + 10
            &&& -50 <= gm < -10 ==> shift == gm + 138
            &&& gm > 50 ==> shift == 60
            &&& gm < -50 ==> shift == 88
            &&& p[1] == 0 && p[2] == 0 && p[3] == 0 && p[4] == 0
            &&& p[5] % 4 == 0 && p[5] / 8 % 4 == 0
        }),
{
    let v = at_most(intensity as int, 1000);
    let g = shift_value(gm);
    let steps = cct_steps(kelvin);
    let (value, high) = if steps <= 1000 {
        (steps, 0int)
    } else {
        (steps - 1000, 1int)
    };
    let f = cct_fields(kelvin, intensity, gm);
    let b = seq![
        0int,
        0,
        0,
        0,
        0,
        4 * high + 32 * (g % 8),
        g / 8 + 16 * (value % 16),
        value / 16 + 64 * (v % 4),
        v / 4,
        0x82,
    ];
    assert(f == high * BIT_42 + g * BIT_45 + value * BIT_52 + v * BIT_62 + 0x82 * BIT_72);
    lemma_payload_bytes(f as int, b);
    let p = payload(f);
    assert(p[5] == b[5] && p[6] == b[6] && p[7] == b[7] && p[8] == b[8] && p[9] == b[9]);
    assert(p[5] / 4 % 2 == high && p[5] / 32 == g % 8);
    assert(p[6] % 16 == g / 8 && p[6] / 16 == value % 16);
    assert(p[7] % 64 == value / 16 && p[7] / 64 == v % 4);
}

/// A colour in bytes: the hue in degrees, at most 360, and the saturation in percent, at most
/// 100, below the brightness.
#[verifier::spinoff_prover]
pub proof fn law_colour_bytes(hue: u16, saturation: u16, intensity: u16)
    ensures
        ({
            let p = payload(hsi_fields(hue, saturation, intensity));
            let h = (p[7] % 64) * 8 + p[6] / 32;
            let s = (p[6] % 32) * 4 + p[5] / 64;
            &&& p[9] == 0x81
            &&& intensity <= 1000 ==> 4 * p[8] + p[7] / 64 == intensity
            &&& intensity > 1000 ==> 4 * p[8] + p[7] / 64 == 1000
            &&& hue <= 360 ==> h == hue
            &&& hue > 360 ==> h == 360
            &&& saturation <= 100 ==> s == saturation
            &&& saturation > 100 ==> s == 100
            &&& p[1] == 0 && p[2] == 0 && p[3] == 0 && p[4] == 0
            &&& p[5] % 64 == 0
        }),
{
    let v = at_most(intensity as int, 1000);
    let h = at_most(hue as int, 360);
    let s = at_most(saturation as int, 100);
    let f = hsi_fields(hue, saturation, intensity);
    let b = seq![
        0int,
        0,
        0,
        0,
        0,
        64 * (s % 4),
        s / 4 + 32 * (h % 8),
        h / 8 + 64 * (v % 4),
        v / 4,
        0x81,
    ];
    assert(f == s * BIT_46 + h * BIT_53 + v * BIT_62 + 0x81 * BIT_72);
    lemma_payload_bytes(f as int, b);
    let p = payload(f);
    assert(p[5] == b[5] && p[6] == b[6] && p[7] == b[7] && p[8] == b[8] && p[9] == b[9]);
}

/// The levels of the emitters in bytes: ten bits each, from the top red, green, blue, cold white,
/// warm white and the brightness, none above 1000.
#[verifier::spinoff_prover]
pub proof fn law_emitter_bytes(r: u16, g: u16, b: u16, ww: u16, cw: u16, intensity: u16)
    ensures
        ({
            let p = payload(rgbww_fields(r, g, b, ww, cw, intensity));
            let red = 4 * p[8] + p[7] / 64;
            let green = (p[7] % 64) * 16 + p[6] / 16;
            let blue = (p[6] % 16) * 64 + p[5] / 4;
            let cold = (p[5] % 4) * 256 + p[4];
            let warm = 4 * p[3] + p[2] / 64;
            let bright = (p[2] % 64) * 16 + p[1] / 16;
            &&& p[9] == 0x84
            &&& red == if r <= 1000 { r as int } else { 1000 }
            &&& green == if g <= 1000 { g as int } else { 1000 }
            &&& blue == if b <= 1000 { b as int } else { 1000 }
            &&& cold == if cw <= 1000 { cw as int } else { 1000 }
            &&& warm == if ww <= 1000 { ww as int } else { 1000 }
            &&& bright == if intensity <= 1000 { intensity as int } else { 1000 }
            &&& p[1] % 16 == 0
        }),
{
    let v = at_most(intensity as int, 1000);
    let r1 = at_most(r as int, 1000);
    let g1 = at_most(g as int, 1000);
    let b1 = at_most(b as int, 1000);
    let c1 = at_most(cw as int, 1000);
    let w1 = at_most(ww as int, 1000);
    let f = rgbww_fields(r, g, b, ww, cw, intensity);
    let e = seq![
        0int,
        16 * (v % 16),
        v / 16 + 64 * (w1 % 4),
        w1 / 4,
        c1 % 256,
        c1 / 256 + 4 * (b1 % 64),
        b1 / 64 + 16 * (g1 % 16),
        g1 / 16 + 64 * (r1 % 4),
        r1 / 4,
        0x84,
    ];
    assert(f == v * BIT_12 + w1 * BIT_22 + c1 * BIT_32 + b1 * BIT_42 + g1 * BIT_52 + r1 * BIT_62
        + 0x84 * BIT_72);
    lemma_payload_bytes(f as int, e);
    let p = payload(f);
    assert(p[1] == e[1] && p[2] == e[2] && p[3] == e[3] && p[4] == e[4] && p[5] == e[5]);
    assert(p[6] == e[6] && p[7] == e[7] && p[8] == e[8] && p[9] == e[9]);
}

/// A gel in bytes: the brightness, the base colour temperature, the brand, the series and the
/// number. A temperature above 1000 is sent with 24 added and bit 36 set.
#[verifier::spinoff_prover]
pub proof fn law_gel_bytes(cct: u16, number: u16, series: u8, brand: u8, intensity: u16)
    ensures
        ({
            let p = payload(gel_fields(cct, number, series, brand, intensity));
            let c = (p[7] % 64) * 16 + p[6] / 16;
            let above = p[4] / 16 % 2;
            &&& p[9] == 0x83
            &&& intensity <= 1000 ==> 4 * p[8] + p[7] / 64 == intensity
            &&& intensity > 1000 ==> 4 * p[8] + p[7] / 64 == 1000
            &&& cct <= 1000 ==> c == cct && above == 0
            &&& 1000 < cct <= 10000 ==> c == (cct + 24) % 1024 && above == 1
            &&& cct > 10000 ==> c == 808 && above == 1
            &&& p[6] / 8 % 2 == brand % 2
            &&& (p[6] % 8) * 2 + p[5] / 128 == series % 16
            &&& (p[5] % 128) * 8 + p[4] / 32 == number % 1024
            &&& p[1] == 0 && p[2] == 0 && p[3] == 0
            &&& p[4] % 16 == 0
        }),
{
    let v = at_most(intensity as int, 1000);
    let base = at_most(cct as int, 10000);
    let (value, high) = if base <= 1000 {
        (base, 0int)
    } else {
        ((base + 24) % 1024, 1int)
    };
    let n = (number % 1024) as int;
    let s = (series % 16) as int;
    let k = (brand % 2) as int;
    let f = gel_fields(cct, number, series, brand, intensity);
    let b = seq![
        0int,
        0,
        0,
        0,
        16 * high + 32 * (n % 8),
        n / 8 + 128 * (s % 2),
        s / 2 + 8 * k + 16 * (value % 16),
        value / 16 + 64 * (v % 4),
        v / 4,
        0x83,
    ];
    assert(f == high * BIT_36 + n * BIT_37 + s * BIT_47 + k * BIT_51 + value * BIT_52 + v * BIT_62
        + 0x83 * BIT_72);
    lemma_payload_bytes(f as int, b);
    let p = payload(f);
    assert(p[4] == b[4] && p[5] == b[5] && p[6] == b[6] && p[7] == b[7] && p[8] == b[8]);
    assert(p[9] == b[9]);
}

/// A chromaticity in bytes: fourteen bits for each coordinate, below the brightness.
#[verifier::spinoff_prover]
pub proof fn law_chromaticity_bytes(x: u16, y: u16, intensity: u16)
    ensures
        ({
            let p = payload(xy_fields(x, y, intensity));
            &&& p[9] == 0x85
            &&& intensity <= 1000 ==> 4 * p[8] + p[7] / 64 == intensity
            &&& intensity > 1000 ==> 4 * p[8] + p[7] / 64 == 1000
            &&& (p[7] % 64) * 256 + p[6] == x % 16384
            &&& p[5] * 64 + p[4] / 4 == y % 16384
            &&& p[1] == 0 && p[2] == 0 && p[3] == 0
            &&& p[4] % 4 == 0
        }),
{
    let v = at_most(intensity as int, 1000);
    let a = (x % 0x4000) as int;
    let c = (y % 0x4000) as int;
    let f = xy_fields(x, y, intensity);
    let b = seq![
        0int,
        0,
        0,
        0,
        4 * (c % 64),
        c / 64,
        a % 256,
        a / 256 + 64 * (v % 4),
        v / 4,
        0x85,
    ];
    assert(f == c * BIT_34 + a * BIT_48 + v * BIT_62 + 0x85 * BIT_72);
    lemma_payload_bytes(f as int, b);
    let p = payload(f);
    assert(p[4] == b[4] && p[5] == b[5] && p[6] == b[6] && p[7] == b[7] && p[8] == b[8]);
    assert(p[9] == b[9]);
}

} // verus!
