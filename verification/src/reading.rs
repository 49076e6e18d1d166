//! The frame decoder: 40 pulse pairs to 5 bytes, checksum validation, and
//! the physical-unit views of a validated reading.

use vstd::prelude::*;
use crate::error::ErrorKind;
use crate::pulse::Pulse;

verus! {

/// Two to the power `n`.
pub open spec fn two_to(n: nat) -> nat
    decreases n,
{
    if n == 0 {
        1
    } else {
        2 * two_to((n - 1) as nat)
    }
}

proof fn lemma_two_to_pos(n: nat)
    ensures
        two_to(n) >= 1,
    decreases n,
{
    if n > 0 {
        lemma_two_to_pos((n - 1) as nat);
    }
}

proof fn lemma_two_to_monotone(a: nat, b: nat)
    requires
        a <= b,
    ensures
        two_to(a) <= two_to(b),
    decreases b,
{
    if a < b {
        lemma_two_to_monotone(a, (b - 1) as nat);
        lemma_two_to_pos((b - 1) as nat);
    }
}

proof fn lemma_two_to_7()
    ensures
        two_to(7) == 128,
{
    assert(two_to(0) == 1);
    assert(two_to(1) == 2);
    assert(two_to(2) == 4);
    assert(two_to(3) == 8);
    assert(two_to(4) == 16);
    assert(two_to(5) == 32);
    assert(two_to(6) == 64);
    assert(two_to(7) == 128);
}

/// The value of a bit string read most-significant-bit first.
pub open spec fn bits_value(bits: Seq<bool>) -> nat
    decreases bits.len(),
{
    if bits.len() == 0 {
        0
    } else {
        2 * bits_value(bits.drop_last()) + (if bits.last() {
            1nat
        } else {
            0nat
        })
    }
}

/// A bit string of length `n` encodes a value below two to the `n`.
pub proof fn lemma_bits_value_bound(bits: Seq<bool>)
    ensures
        bits_value(bits) < two_to(bits.len()),
    decreases bits.len(),
{
    if bits.len() > 0 {
        lemma_bits_value_bound(bits.drop_last());
    }
}

/// The bits encoded by a pulse sequence, one per pulse pair.
pub open spec fn pulse_bits(pulses: Seq<Pulse>) -> Seq<bool> {
    Seq::new(pulses.len(), |i: int| pulses[i].spec_bit())
}

/// Byte `k` of the frame carried by a 40-pulse sequence: pulses `8k` to
/// `8k + 7`, most significant bit first.
pub open spec fn frame_byte(pulses: Seq<Pulse>, k: int) -> nat {
    bits_value(pulse_bits(pulses).subrange(8 * k, 8 * k + 8))
}

/// The checksum a frame should carry: the low 8 bits of the sum of its four
/// data bytes.
pub open spec fn frame_checksum(pulses: Seq<Pulse>) -> nat {
    (frame_byte(pulses, 0) + frame_byte(pulses, 1) + frame_byte(pulses, 2) + frame_byte(
        pulses,
        3,
    )) % 256
}

/// A frame is accepted exactly when its fifth byte equals the checksum of
/// the first four.
pub open spec fn frame_valid(pulses: Seq<Pulse>) -> bool {
    frame_checksum(pulses) == frame_byte(pulses, 4)
}

/// A validated, immutable reading: the four data bytes of one accepted
/// frame.
#[derive(Copy, Clone, Debug, PartialEq, Eq, Structural)]
pub struct Reading {
    /// Integral part of the relative humidity, in percent.
    pub rh_integral: u8,
    /// Decimal part of the relative humidity, in tenths of a percent.
    pub rh_decimal: u8,
    /// Integral part of the temperature; the top bit is the sign
    /// (sign-magnitude encoding, not two's complement).
    pub t_integral: u8,
    /// Decimal part of the temperature, in tenths of a degree.
    pub t_decimal: u8,
}

/// The reading a valid 40-pulse frame decodes to.
pub open spec fn decoded(pulses: Seq<Pulse>) -> Reading {
    Reading {
        rh_integral: frame_byte(pulses, 0) as u8,
        rh_decimal: frame_byte(pulses, 1) as u8,
        t_integral: frame_byte(pulses, 2) as u8,
        t_decimal: frame_byte(pulses, 3) as u8,
    }
}

impl Reading {
    /// Groups the 40 pulse pairs into 5 bytes (most significant bit first,
    /// one bit per pair, `1` exactly when the high pulse outlasted the low
    /// delimiter), validates the checksum, and packages the data bytes.
    pub fn from_pulses<E>(pulses: &Vec<Pulse>) -> (r: Result<Self, ErrorKind<E>>)
        requires
            pulses@.len() == 40,
        ensures
            r matches Ok(reading) ==> frame_valid(pulses@) && reading == decoded(pulses@),
            r matches Err(e) ==> {
                &&& !frame_valid(pulses@)
                &&& e matches ErrorKind::Checksum { actual, expected }
                    && actual == frame_checksum(pulses@)
                    && expected == frame_byte(pulses@, 4)
            },
    {
        let ghost bs = pulse_bits(pulses@);
        let mut bytes: Vec<u8> = Vec::new();
        let mut i: usize = 0;
        while i < 5
            invariant
                pulses@.len() == 40,
                bs == pulse_bits(pulses@),
                i <= 5,
                bytes@.len() == i,
                forall|k: int| 0 <= k < i ==> bytes@[k] == frame_byte(pulses@, k),
            decreases 5 - i,
        {
            let ghost base = 8 * (i as int);
            let mut byte: u8 = 0;
            let mut j: usize = 0;
            proof {
                assert(bs.subrange(base, base) =~= Seq::<bool>::empty());
            }
            while j < 8
                invariant
                    pulses@.len() == 40,
                    bs == pulse_bits(pulses@),
                    i < 5,
                    j <= 8,
                    base == 8 * (i as int),
                    byte as nat == bits_value(bs.subrange(base, base + j)),
                decreases 8 - j,
            {
                proof {
                    lemma_bits_value_bound(bs.subrange(base, base + j));
                    lemma_two_to_monotone((j as nat), 7);
                    lemma_two_to_7();
                }
                let p = pulses[8 * i + j];
                let bit: u8 = if p.bit() {
                    1
                } else {
                    0
                };
                byte = 2 * byte + bit;
                proof {
                    assert(bs.subrange(base, base + j + 1).drop_last() =~= bs.subrange(
                        base,
                        base + j,
                    ));
                    assert(bs.subrange(base, base + j + 1).last() == bs[base + j]);
                }
                j += 1;
            }
            bytes.push(byte);
            i += 1;
        }
        let sum: u16 = bytes[0] as u16 + bytes[1] as u16 + bytes[2] as u16 + bytes[3] as u16;
        let actual: u8 = (sum % 256) as u8;
        let expected: u8 = bytes[4];
        if actual != expected {
            return Err(ErrorKind::Checksum { actual, expected });
        }
        Ok(
            Reading {
                rh_integral: bytes[0],
                rh_decimal: bytes[1],
                t_integral: bytes[2],
                t_decimal: bytes[3],
            },
        )
    }

    /// The relative humidity this reading carries, in tenths of a percent.
    pub open spec fn spec_humidity_deci(self) -> int {
        self.rh_integral * 256 + self.rh_decimal
    }

    /// True when the temperature is negative (top bit of the integral
    /// byte).
    pub open spec fn spec_temp_negative(self) -> bool {
        self.t_integral >= 128
    }

    /// The temperature's magnitude, in tenths of a degree Celsius: the
    /// sign bit is masked off before the bytes are combined.
    pub open spec fn spec_temp_magnitude_deci(self) -> int {
        (self.t_integral % 128) * 256 + self.t_decimal
    }

    /// The signed temperature, in tenths of a degree Celsius.
    pub open spec fn spec_temp_celcius_deci(self) -> int {
        if self.spec_temp_negative() {
            -self.spec_temp_magnitude_deci()
        } else {
            self.spec_temp_magnitude_deci()
        }
    }

    /// The temperature, in hundredths of a degree Fahrenheit: exactly
    /// `celsius * 1.8 + 32`, scaled to stay in integers.
    pub open spec fn spec_temp_fahrenheit_centi(self) -> int {
        18 * self.spec_temp_celcius_deci() + 3200
    }

    /// Relative humidity in tenths of a percent (600 is 60.0 %).
    pub fn humidity_percent_deci(self) -> (r: u16)
        ensures
            r == self.spec_humidity_deci(),
    {
        (self.rh_integral as u16) * 256 + (self.rh_decimal as u16)
    }

    /// Temperature in tenths of a degree Celsius (-1330 is -133.0 degrees),
    /// decoded from the sign-magnitude encoding.
    pub fn temp_celcius_deci(self) -> (r: i32)
        ensures
            r == self.spec_temp_celcius_deci(),
            -32767 <= r <= 32767,
    {
        let ti = self.t_integral;
        proof {
            assert((ti & 0x7f) == ti % 128) by (bit_vector);
            assert(((ti & 0x80) != 0) == (ti >= 128)) by (bit_vector);
        }
        let mag: u16 = ((ti & 0x7f) as u16) * 256 + (self.t_decimal as u16);
        if (ti & 0x80) != 0 {
            -(mag as i32)
        } else {
            mag as i32
        }
    }

    /// Temperature in hundredths of a degree Fahrenheit (8114 is 81.14
    /// degrees).
    pub fn temp_fahrenheit_centi(self) -> (r: i32)
        ensures
            r == self.spec_temp_fahrenheit_centi(),
    {
        celcius_deci_to_fahrenheit_centi(self.temp_celcius_deci())
    }
}

/// The exact Fahrenheit conversion, on tenths of a degree Celsius in and
/// hundredths of a degree Fahrenheit out: both scales are decimal, so
/// `celsius * 1.8 + 32` carries over to integers with no rounding at all.
/// The admitted range is every temperature a frame can encode (15 bits of
/// magnitude in tenths).
pub fn celcius_deci_to_fahrenheit_centi(c_deci: i32) -> (r: i32)
    requires
        -32767 <= c_deci <= 32767,
    ensures
        r == 18 * c_deci + 3200,
{
    18 * c_deci + 3200
}

/// Law: for a 40-pulse sequence whose pairs follow a known bit pattern
/// (high pulse longer than low exactly where the pattern holds a one),
/// decoding reproduces exactly that pattern, packed most-significant-bit
/// first into the five frame bytes.
pub proof fn lemma_decode_reproduces_pattern(pulses: Seq<Pulse>, pattern: Seq<bool>)
    requires
        pulses.len() == 40,
        pattern.len() == 40,
        forall|i: int| 0 <= i < 40 ==> pulses[i].spec_bit() == pattern[i],
    ensures
        forall|k: int|
            0 <= k < 5 ==> frame_byte(pulses, k) == bits_value(
                pattern.subrange(8 * k, 8 * k + 8),
            ),
{
    assert(pulse_bits(pulses) =~= pattern);
}

/// Law: a frame carrying data bytes `b0..b3` and, as its fifth byte, the
/// low 8 bits of their sum, is always accepted, and decodes to exactly
/// those bytes.
pub proof fn lemma_valid_checksum_accepted(pulses: Seq<Pulse>, b0: u8, b1: u8, b2: u8, b3: u8)
    requires
        pulses.len() == 40,
        frame_byte(pulses, 0) == b0,
        frame_byte(pulses, 1) == b1,
        frame_byte(pulses, 2) == b2,
        frame_byte(pulses, 3) == b3,
        frame_byte(pulses, 4) == (b0 + b1 + b2 + b3) % 256,
    ensures
        frame_valid(pulses),
        decoded(pulses) == (Reading { rh_integral: b0, rh_decimal: b1, t_integral: b2, t_decimal: b3 }),
{
}

/// Law: corrupting only the checksum byte is always detected, and the
/// diagnostic pair is the true sum (low 8 bits) against the corrupted
/// byte.
pub proof fn lemma_bad_checksum_rejected(pulses: Seq<Pulse>, b0: u8, b1: u8, b2: u8, b3: u8, x: u8)
    requires
        pulses.len() == 40,
        frame_byte(pulses, 0) == b0,
        frame_byte(pulses, 1) == b1,
        frame_byte(pulses, 2) == b2,
        frame_byte(pulses, 3) == b3,
        frame_byte(pulses, 4) == x,
        x != (b0 + b1 + b2 + b3) % 256,
    ensures
        !frame_valid(pulses),
        frame_checksum(pulses) == (b0 + b1 + b2 + b3) % 256,
{
}

} // verus!
