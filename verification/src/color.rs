//! The colour of a hue at full saturation and half lightness, computed
//! exactly, and its `#RRGGBB` form.
//!
//! A hue is a fraction `num / den` of degrees. With saturation 1 and
//! lightness 1/2 the chroma is 1 and nothing is added to the channels, so
//! each channel is 0, 255 or `floor(255 * X)`, where
//! `X = 1 - |(hue / 60 mod 2) - 1|`.

use vstd::prelude::*;
use vstd::string::StringExecFns;

verus! {

/// The hue of the highest count that gets a hue, in degrees.
pub const HUE_RANGE: u32 = 300;

/// The hue of count 0, in degrees.
pub const HUE_OFFSET: u32 = 0;

/// The sixth of the colour wheel that the hue `num / den` lies in, from 0 to
/// 5, the hue taken modulo 360.
pub open spec fn sector(num: nat, den: nat) -> nat {
    (num % (360 * den)) / (60 * den)
}

/// `floor(255 * X)` for the hue `num / den`: 0 at the even multiples of 60
/// degrees, 255 at the odd ones, and linear in between.
pub open spec fn ramp(num: nat, den: nat) -> nat {
    let t = num % (120 * den);
    let dist = if t >= 60 * den {
        t - 60 * den
    } else {
        60 * den - t
    };
    (255 * (60 * den - dist)) as nat / (60 * den)
}

/// Red, green and blue of the hue `num / den`, each from 0 to 255.
pub open spec fn hue_channels(num: nat, den: nat) -> (nat, nat, nat) {
    let x = ramp(num, den);
    let s = sector(num, den);
    if s == 0 {
        (255, x, 0)
    } else if s == 1 {
        (x, 255, 0)
    } else if s == 2 {
        (0, 255, x)
    } else if s == 3 {
        (0, x, 255)
    } else if s == 4 {
        (x, 0, 255)
    } else {
        (255, 0, x)
    }
}

/// The sixteen digits of upper-case hexadecimal.
pub open spec fn hex_digits() -> Seq<char> {
    seq!['0', '1', '2', '3', '4', '5', '6', '7', '8', '9', 'A', 'B', 'C', 'D', 'E', 'F']
}

/// The two hexadecimal digits of a channel.
pub open spec fn hex_byte(value: nat) -> Seq<char>
    recommends
        value < 256,
{
    seq![hex_digits()[value as int / 16], hex_digits()[value as int % 16]]
}

/// `#RRGGBB`.
pub open spec fn hex_color(rgb: (nat, nat, nat)) -> Seq<char>
    recommends
        rgb.0 < 256,
        rgb.1 < 256,
        rgb.2 < 256,
{
    seq!['#'] + hex_byte(rgb.0) + hex_byte(rgb.1) + hex_byte(rgb.2)
}

/// The sector is one of six and the ramp is a channel value.
pub proof fn lemma_channel_bounds(num: nat, den: nat)
    requires
        den > 0,
    ensures
        sector(num, den) < 6,
        ramp(num, den) <= 255,
        hue_channels(num, den).0 <= 255,
        hue_channels(num, den).1 <= 255,
        hue_channels(num, den).2 <= 255,
{
    let r = (num % (360 * den)) as int;
    let t = (num % (120 * den)) as int;
    let d = den as int;
    vstd::arithmetic::div_mod::lemma_mod_bound(num as int, 360 * d);
    vstd::arithmetic::div_mod::lemma_mod_bound(num as int, 120 * d);
    assert(r / (60 * d) < 6) by (nonlinear_arith)
        requires
            0 <= r < 360 * d,
            d > 0,
    ;
    let dist = if t >= 60 * d {
        t - 60 * d
    } else {
        60 * d - t
    };
    let up = 255 * (60 * d - dist);
    assert(0 <= up / (60 * d) <= 255) by (nonlinear_arith)
        requires
            0 <= up <= 255 * (60 * d),
            d > 0,
    ;
}

/// Red, green and blue of the hue `num / den`.
pub fn channels(num: u64, den: u32) -> (rgb: (u8, u8, u8))
    requires
        den > 0,
    ensures
        (rgb.0 as nat, rgb.1 as nat, rgb.2 as nat) == hue_channels(num as nat, den as nat),
{
    proof {
        lemma_channel_bounds(num as nat, den as nat);
        vstd::arithmetic::div_mod::lemma_mod_bound(num as int, 120 * den);
    }
    let sixth: u64 = 60 * (den as u64);
    let t: u64 = num % (2 * sixth);
    let dist: u64 = if t >= sixth {
        t - sixth
    } else {
        sixth - t
    };
    let x: u8 = ((255 * (sixth - dist)) / sixth) as u8;
    let s: u64 = (num % (6 * sixth)) / sixth;
    if s == 0 {
        (255, x, 0)
    } else if s == 1 {
        (x, 255, 0)
    } else if s == 2 {
        (0, 255, x)
    } else if s == 3 {
        (0, x, 255)
    } else if s == 4 {
        (x, 0, 255)
    } else {
        (255, 0, x)
    }
}

/// One hexadecimal digit, as a string.
fn hex_digit(value: u8) -> (digit: &'static str)
    requires
        value < 16,
    ensures
        digit@ == seq![hex_digits()[value as int]],
{
    proof {
        reveal_strlit("0");
        reveal_strlit("1");
        reveal_strlit("2");
        reveal_strlit("3");
        reveal_strlit("4");
        reveal_strlit("5");
        reveal_strlit("6");
        reveal_strlit("7");
        reveal_strlit("8");
        reveal_strlit("9");
        reveal_strlit("A");
        reveal_strlit("B");
        reveal_strlit("C");
        reveal_strlit("D");
        reveal_strlit("E");
        reveal_strlit("F");
    }
    let digit = match value {
        0 => "0",
        1 => "1",
        2 => "2",
        3 => "3",
        4 => "4",
        5 => "5",
        6 => "6",
        7 => "7",
        8 => "8",
        9 => "9",
        10 => "A",
        11 => "B",
        12 => "C",
        13 => "D",
        14 => "E",
        _ => "F",
    };
    assert(digit@ =~= seq![hex_digits()[value as int]]);
    digit
}

/// The colour as `#RRGGBB`, in upper-case hexadecimal.
pub fn to_hex(rgb: (u8, u8, u8)) -> (text: String)
    ensures
        text@ == hex_color((rgb.0 as nat, rgb.1 as nat, rgb.2 as nat)),
        text@.len() == 7,
{
    proof {
        reveal_strlit("#");
    }
    let mut text = String::from_str("#");
    text.append(hex_digit(rgb.0 / 16));
    text.append(hex_digit(rgb.0 % 16));
    text.append(hex_digit(rgb.1 / 16));
    text.append(hex_digit(rgb.1 % 16));
    text.append(hex_digit(rgb.2 / 16));
    text.append(hex_digit(rgb.2 % 16));
    assert(text@ =~= hex_color((rgb.0 as nat, rgb.1 as nat, rgb.2 as nat)));
    text
}

} // verus!
