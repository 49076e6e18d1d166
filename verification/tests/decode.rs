//! Decoder-level tests: pulse pairs in, bytes and physical units out.

use mercury::error::ErrorKind;
use mercury::pulse::Pulse;
use mercury::reading::Reading;

/// Pulses whose comparative widths encode the given bytes, one bit per
/// pair, most significant bit first: the low delimiter is nominally 50 us,
/// the high pulse 70 us for a one and 28 us for a zero.
fn pulses_for_bytes(bytes: [u8; 5]) -> Vec<Pulse> {
    let mut pulses: Vec<Pulse> = Vec::new();
    for byte in bytes {
        for bit in (0..8).rev() {
            let one = (byte >> bit) & 1 == 1;
            pulses.push(Pulse { lo: 50, hi: if one { 70 } else { 28 } });
        }
    }
    pulses
}

#[test]
fn decode_reproduces_known_bit_pattern() {
    // An arbitrary 40-bit pattern with a valid checksum:
    // 0xB2 + 0x4D + 0x00 + 0xFF = 0x1FE, low byte 0xFE.
    let pulses = pulses_for_bytes([0xB2, 0x4D, 0x00, 0xFF, 0xFE]);
    let reading = Reading::from_pulses::<()>(&pulses).unwrap();
    assert_eq!(reading.rh_integral, 0xB2);
    assert_eq!(reading.rh_decimal, 0x4D);
    assert_eq!(reading.t_integral, 0x00);
    assert_eq!(reading.t_decimal, 0xFF);
}

#[test]
fn decode_is_comparative_not_absolute() {
    // A constant sampling bias shifts both windows; only their order
    // matters. Here a one is (3, 5) and a zero (3, 2), far from the
    // nominal datasheet widths. Checksum of four 0xFF bytes: 0x3FC, low
    // byte 0xFC.
    let mut pulses: Vec<Pulse> = Vec::new();
    for byte in [0xFFu8, 0xFF, 0xFF, 0xFF, 0xFC] {
        for bit in (0..8).rev() {
            let one = (byte >> bit) & 1 == 1;
            pulses.push(Pulse { lo: 3, hi: if one { 5 } else { 2 } });
        }
    }
    let reading = Reading::from_pulses::<()>(&pulses).unwrap();
    assert_eq!(reading.rh_integral, 0xFF);
    assert_eq!(reading.t_decimal, 0xFF);
}

#[test]
fn equal_durations_decode_as_zero_bits() {
    // The bit decision is strict: a high pulse merely as long as the low
    // delimiter is a zero. All-zero bytes carry an all-zero checksum.
    let mut pulses: Vec<Pulse> = Vec::new();
    for _ in 0..40 {
        pulses.push(Pulse { lo: 50, hi: 50 });
    }
    let reading = Reading::from_pulses::<()>(&pulses).unwrap();
    assert_eq!(reading.rh_integral, 0);
    assert_eq!(reading.rh_decimal, 0);
    assert_eq!(reading.t_integral, 0);
    assert_eq!(reading.t_decimal, 0);
    assert_eq!(reading.humidity_percent_deci(), 0);
    assert_eq!(reading.temp_celcius_deci(), 0);
    assert_eq!(reading.temp_fahrenheit_centi(), 3200);
}

#[test]
fn valid_checksum_accepted_for_all_byte_values_sampled() {
    // The checksum law on a spread of byte quadruples, including wrap-around.
    let cases = [
        [0x00, 0x00, 0x00, 0x00],
        [0x01, 0x02, 0x03, 0x04],
        [0xFF, 0xFF, 0xFF, 0xFF],
        [0x80, 0x80, 0x01, 0x01],
        [0x02, 0x58, 0x01, 0x11],
    ];
    for [b0, b1, b2, b3] in cases {
        let chk = (b0 as u16 + b1 as u16 + b2 as u16 + b3 as u16) as u8;
        let pulses = pulses_for_bytes([b0, b1, b2, b3, chk]);
        let reading = Reading::from_pulses::<()>(&pulses).unwrap();
        assert_eq!(reading.rh_integral, b0);
        assert_eq!(reading.rh_decimal, b1);
        assert_eq!(reading.t_integral, b2);
        assert_eq!(reading.t_decimal, b3);
    }
}

#[test]
fn mutated_checksum_rejected_with_diagnostics() {
    let b = [0x02u8, 0x58, 0x01, 0x11];
    let true_sum = 0x6Cu8; // 0x02 + 0x58 + 0x01 + 0x11
    let mutated = 0x6Du8;
    let pulses = pulses_for_bytes([b[0], b[1], b[2], b[3], mutated]);
    match Reading::from_pulses::<()>(&pulses) {
        Ok(_) => panic!("corrupted checksum must be rejected"),
        Err(ErrorKind::Checksum { actual, expected }) => {
            assert_eq!(actual, true_sum);
            assert_eq!(expected, mutated);
        }
        Err(_) => panic!("decoding can only fail on the checksum"),
    }
}

#[test]
fn checksum_wraps_to_low_byte() {
    // 0xFF * 4 = 0x3FC: only the low 8 bits count.
    let pulses = pulses_for_bytes([0xFF, 0xFF, 0xFF, 0xFF, 0xFC]);
    assert!(Reading::from_pulses::<()>(&pulses).is_ok());
    let bad = pulses_for_bytes([0xFF, 0xFF, 0xFF, 0xFF, 0xFF]);
    match Reading::from_pulses::<()>(&bad) {
        Err(ErrorKind::Checksum { actual, expected }) => {
            assert_eq!(actual, 0xFC);
            assert_eq!(expected, 0xFF);
        }
        _ => panic!("wrap-around checksum must compare against the low byte"),
    }
}

#[test]
fn humidity_decodes_exactly() {
    // 0x0258 = 600 tenths of a percent = 60.0 %.
    let reading = Reading { rh_integral: 0x02, rh_decimal: 0x58, t_integral: 0, t_decimal: 0 };
    assert_eq!(reading.humidity_percent_deci(), 600);
    assert!((reading.humidity_percent_deci() as f32 * 0.1 - 60.0).abs() < 1e-4);
}

#[test]
fn temperature_sign_magnitude_decodes() {
    // Integral byte 0x80 | 0x05, decimal byte 0x32: magnitude 0x0532 =
    // 1330 tenths, sign bit set.
    let reading = Reading {
        rh_integral: 0,
        rh_decimal: 0,
        t_integral: 0x80 | 0x05,
        t_decimal: 0x32,
    };
    assert_eq!(reading.temp_celcius_deci(), -1330);
    assert!((reading.temp_celcius_deci() as f32 * 0.1 - -133.0).abs() < 1e-4);
    let positive = Reading { rh_integral: 0, rh_decimal: 0, t_integral: 0x05, t_decimal: 0x32 };
    assert_eq!(positive.temp_celcius_deci(), 1330);
}

#[test]
fn fahrenheit_is_exactly_celsius_law() {
    // 100 * F = 18 * (10 * C) + 3200 exactly, for decoded values across
    // the whole range, negative and positive.
    let samples = [
        (0x00u8, 0x00u8),
        (0x01, 0x11),
        (0x7F, 0xFF),
        (0x80, 0x01),
        (0x85, 0x32),
        (0xFF, 0xFF),
    ];
    for (ti, td) in samples {
        let reading = Reading { rh_integral: 0, rh_decimal: 0, t_integral: ti, t_decimal: td };
        let c_deci = reading.temp_celcius_deci();
        let f_centi = reading.temp_fahrenheit_centi();
        assert_eq!(f_centi, 18 * c_deci + 3200);
    }
}
