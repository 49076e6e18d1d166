//! Driver-level tests against a scripted pin: the script holds the levels
//! that successive polls of the line observe, one per microsecond-spaced
//! poll.

use mercury::dht22::DHT22;
use mercury::sim::{ScriptEnd, ScriptedPin};

fn push_run(script: &mut Vec<bool>, level: bool, polls: usize) {
    for _ in 0..polls {
        script.push(level);
    }
}

/// The poll-level script of one complete sensor response: the
/// acknowledgement (80 us low, 80 us high) followed by 40 bits, each a
/// 50 us low delimiter and a high pulse of 70 us for a one or 28 us for a
/// zero, and a trailing low tail.
fn script_for_bytes(bytes: [u8; 5]) -> Vec<bool> {
    let mut script: Vec<bool> = Vec::new();
    push_run(&mut script, false, 80);
    push_run(&mut script, true, 80);
    for byte in bytes {
        for bit in (0..8).rev() {
            let one = (byte >> bit) & 1 == 1;
            push_run(&mut script, false, 50);
            push_run(&mut script, true, if one { 70 } else { 28 });
        }
    }
    push_run(&mut script, false, 10);
    script
}

#[test]
fn end_to_end_reading() {
    // Humidity 60.0 %, temperature +27.3 C; checksum
    // 0x02 + 0x58 + 0x01 + 0x11 = 0x6C.
    let pin = ScriptedPin::new(script_for_bytes([0x02, 0x58, 0x01, 0x11, 0x6C]));
    let mut dht = DHT22::new(pin);
    let reading = dht.read_blocking().unwrap();
    assert_eq!(reading.humidity_percent_deci(), 600);
    assert_eq!(reading.temp_celcius_deci(), 273);
    assert_eq!(reading.temp_fahrenheit_centi(), 8114);
    assert!((reading.humidity_percent_deci() as f32 * 0.1 - 60.0).abs() < 1e-4);
    assert!((reading.temp_celcius_deci() as f32 * 0.1 - 27.3).abs() < 1e-4);
    assert!((reading.temp_fahrenheit_centi() as f32 * 0.01 - 81.14).abs() < 1e-4);
}

#[test]
fn stuck_line_times_out() {
    // A line that never transitions: every pulse measurement exceeds 255
    // microseconds, so the read aborts with a timeout and never reaches
    // the decoder (there is nothing decodable to return).
    let pin = ScriptedPin::new(vec![true; 600]);
    let mut dht = DHT22::new(pin);
    let err = dht.read_blocking().unwrap_err();
    assert!(err.is_timeout());
    assert!(!err.is_io());
    assert!(!err.is_checksum());
}

#[test]
fn stuck_low_line_times_out() {
    // Stuck the other way round: the acknowledgement low pulse itself
    // never ends.
    let pin = ScriptedPin::new(vec![false; 600]);
    let mut dht = DHT22::new(pin);
    let err = dht.read_blocking().unwrap_err();
    assert!(err.is_timeout());
}

#[test]
fn repeated_timeouts_stay_timeouts() {
    // The driver holds no state across reads: a pin that always times out
    // yields a timeout on every call, never a stale prior reading.
    let pin = ScriptedPin::new(vec![true; 2000]);
    let mut dht = DHT22::new(pin);
    for _ in 0..3 {
        let err = dht.read_blocking().unwrap_err();
        assert!(err.is_timeout());
    }
}

#[test]
fn no_stale_reading_after_success() {
    // After one good frame the script holds only the low tail: the next
    // read must fail rather than replay the previous reading.
    let pin = ScriptedPin::new(script_for_bytes([0x02, 0x58, 0x01, 0x11, 0x6C]));
    let mut dht = DHT22::new(pin);
    assert!(dht.read_blocking().is_ok());
    assert!(dht.read_blocking().is_err());
}

#[test]
fn pin_fault_is_io_and_preserved() {
    // The script runs dry mid-handshake: the pin's native error comes
    // back out through the error's extraction hook.
    let pin = ScriptedPin::new(vec![false; 10]);
    let mut dht = DHT22::new(pin);
    let err = dht.read_blocking().unwrap_err();
    assert!(err.is_io());
    assert!(!err.is_timeout());
    assert!(!err.is_checksum());
    assert_eq!(err.into_io(), Some(ScriptEnd));
}

#[test]
fn corrupted_checksum_is_checksum_error() {
    // Same frame as the good reading, checksum byte off by one.
    let pin = ScriptedPin::new(script_for_bytes([0x02, 0x58, 0x01, 0x11, 0x6D]));
    let mut dht = DHT22::new(pin);
    let err = dht.read_blocking().unwrap_err();
    assert!(err.is_checksum());
    match err.0 {
        mercury::error::ErrorKind::Checksum { actual, expected } => {
            assert_eq!(actual, 0x6C);
            assert_eq!(expected, 0x6D);
        }
        _ => unreachable!(),
    }
}

#[test]
fn start_signal_drives_fixed_protocol() {
    // The pin receives exactly: drive high held 1 ms, drive low held
    // 1200 us, drive high held 40 us, in that order and nothing else —
    // every later delay is poll pacing, not a protocol hold. The same
    // drives happen whether the read succeeds or times out.
    let expected: Vec<(bool, u64)> = vec![(true, 1000), (false, 1200), (true, 40)];

    let pin = ScriptedPin::new(script_for_bytes([0x02, 0x58, 0x01, 0x11, 0x6C]));
    let mut dht = DHT22::new(pin);
    assert!(dht.read_blocking().is_ok());
    assert_eq!(dht.pin.driven_log(), &expected);

    let pin = ScriptedPin::new(vec![true; 600]);
    let mut dht = DHT22::new(pin);
    assert!(dht.read_blocking().unwrap_err().is_timeout());
    assert_eq!(dht.pin.driven_log(), &expected);
}

#[test]
fn negative_temperature_end_to_end() {
    // Sign-magnitude frame: integral byte 0x85, decimal 0x32 is -133.0 C;
    // checksum 0x02 + 0x58 + 0x85 + 0x32 = 0x111, low byte 0x11.
    let pin = ScriptedPin::new(script_for_bytes([0x02, 0x58, 0x85, 0x32, 0x11]));
    let mut dht = DHT22::new(pin);
    let reading = dht.read_blocking().unwrap();
    assert_eq!(reading.temp_celcius_deci(), -1330);
    assert_eq!(reading.temp_fahrenheit_centi(), 18 * -1330 + 3200);
}
