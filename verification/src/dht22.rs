//! The driver: handshake, timed pulse sampling, acquisition of the 40-bit
//! frame under a preemption-suppressed window, and decoding.

use vstd::prelude::*;
use crate::error::{Error, ErrorKind};
use crate::pin::{lemma_extend_hold_of_push, SensorPin};
use crate::pulse::Pulse;
use crate::reading::{decoded, frame_byte, frame_checksum, frame_valid, Reading};
use crate::timeline::{
    ack_ok, ack_poll_state, ack_rest, ack_times_out, ack_timeout_rest, lead_len,
    lemma_ack_ok_poll_states, lemma_lead_len_at, lemma_lead_len_ge, lemma_pulses_extend,
    lemma_pulses_ok_poll_states, lemma_pulses_poll_state_from, lemma_pulses_time_out_from,
    lemma_stuck_script, lemma_time_out_excludes_ok, measure_ok, measure_poll_state,
    measure_rest, measure_times_out, pulses_ok, pulses_poll_state, pulses_rest,
    pulses_time_out, pulses_timeout_rest, pulses_val,
};
use vstd::seq_lib::lemma_seq_skip_of_skip;

verus! {

/// The host's start signal, as a drive trace: line high for 1 ms (the
/// idle/ready state), low for 1200 us (the start pulse, longer than the
/// nominal 800 us to tolerate sloppy host timing), then released high for
/// 40 us before the first poll. Fixed at design level, not adjustable at
/// call time.
pub open spec fn start_signal_trace() -> Seq<(bool, int)> {
    seq![(true, 1000int), (false, 1200int), (true, 40int)]
}

/// Everything one call of [`DHT22::read_blocking`] promises, relating
/// the driver before the call, the driver after it, and the result. Kept
/// as a named predicate so that laws about whole reads can be stated and
/// proved from the contract alone; see
/// [`lemma_stuck_line_forces_timeout`] and
/// [`lemma_good_script_forces_reading`].
pub open spec fn read_spec<P: SensorPin>(
    pre: DHT22<P>,
    post: DHT22<P>,
    r: Result<Reading, Error<P::Error>>,
) -> bool {
    &&& (!pre.suppressed() ==> !post.suppressed())
    &&& (r matches Ok(reading) ==> {
        let sa = ack_rest(pre.script());
        &&& ack_ok(pre.script())
        &&& pulses_ok(sa, 40)
        &&& frame_valid(pulses_val(sa, 40))
        &&& reading == decoded(pulses_val(sa, 40))
        &&& post.script() == pulses_rest(sa, 40)
        &&& post.pin.drives() == pre.pin.drives() + start_signal_trace()
        &&& post.pin.faults() == pre.pin.faults()
    })
    &&& (r matches Err(e) ==> (match e.0 {
        ErrorKind::Timeout => {
            &&& (ack_times_out(pre.script()) || (ack_ok(pre.script()) && pulses_time_out(
                ack_rest(pre.script()),
                40,
            )))
            &&& post.script() == (if ack_times_out(pre.script()) {
                ack_timeout_rest(pre.script())
            } else {
                pulses_timeout_rest(ack_rest(pre.script()), 40)
            })
            &&& post.pin.drives() == pre.pin.drives() + start_signal_trace()
            &&& post.pin.faults() == pre.pin.faults()
        },
        ErrorKind::Checksum { actual, expected } => {
            let sa = ack_rest(pre.script());
            &&& ack_ok(pre.script())
            &&& pulses_ok(sa, 40)
            &&& !frame_valid(pulses_val(sa, 40))
            &&& actual == frame_checksum(pulses_val(sa, 40))
            &&& expected == frame_byte(pulses_val(sa, 40), 4)
            &&& post.script() == pulses_rest(sa, 40)
            &&& post.pin.drives() == pre.pin.drives() + start_signal_trace()
            &&& post.pin.faults() == pre.pin.faults()
        },
        ErrorKind::Io(pe) => {
            &&& post.pin.faults() == pre.pin.faults().push(pe)
            &&& ((post.pin.drive_fallible() && post.script() == pre.script()) || (
            post.pin.poll_fallible() && (ack_poll_state(pre.script(), post.script()) || (
            ack_ok(pre.script()) && pulses_poll_state(
                ack_rest(pre.script()),
                40,
                post.script(),
            )))))
        },
    }))
    // A script that runs into the per-pulse timeout can never produce a
    // reading, nor even reach the checksum comparison: the decoder sees
    // only complete 40-pulse acquisitions.
    &&& (ack_times_out(pre.script()) || (ack_ok(pre.script()) && pulses_time_out(
        ack_rest(pre.script()),
        40,
    )) ==> !(r is Ok) && !(r matches Err(e) && e.0 is Checksum))
}

/// A driver instance: exclusive ownership of one single-wire pin. The
/// driver holds no other state, so every reading is derived afresh from
/// the line — failed reads leave nothing behind to go stale.
pub struct DHT22<P> {
    /// The owned pin; exposed so that callers can reason about its ghost
    /// state (its script, drive trace and fault trace) across a read.
    pub pin: P,
}

impl<P: SensorPin> DHT22<P> {
    /// The levels the driver's pin will show to successive polls; see
    /// [`SensorPin::script`].
    pub open spec fn script(&self) -> Seq<bool> {
        self.pin.script()
    }

    /// Whether the driver's pin currently suppresses preemption; see
    /// [`SensorPin::in_critical`].
    pub open spec fn suppressed(&self) -> bool {
        self.pin.in_critical()
    }

    /// Wraps an owned pin handle into a driver. No line activity happens
    /// here.
    pub fn new(pin: P) -> (r: Self)
        ensures
            r.pin == pin,
    {
        DHT22 { pin }
    }

    /// Measures how long the line stays at level `high` before
    /// transitioning away, in whole microseconds (one poll per
    /// microsecond), bounded by the 255-microsecond per-pulse timeout.
    /// Polling never drives the line, and a pin fault aborts at once: the
    /// one failing poll appends the one fault, propagated verbatim.
    fn read_pulse_us(&mut self, high: bool) -> (r: Result<u8, ErrorKind<P::Error>>)
        ensures
            final(self).suppressed() == old(self).suppressed(),
            r matches Ok(len) ==> {
                &&& measure_ok(old(self).script(), high)
                &&& len == lead_len(old(self).script(), high)
                &&& final(self).script() == measure_rest(old(self).script(), high)
                &&& final(self).pin.drives() == old(self).pin.drives()
                &&& !final(self).pin.hold_open()
                &&& final(self).pin.faults() == old(self).pin.faults()
            },
            r matches Err(e) ==> (match e {
                ErrorKind::Timeout => {
                    &&& measure_times_out(old(self).script(), high)
                    &&& final(self).script() == old(self).script().skip(256)
                    &&& final(self).pin.drives() == old(self).pin.drives()
                    &&& !final(self).pin.hold_open()
                    &&& final(self).pin.faults() == old(self).pin.faults()
                },
                ErrorKind::Io(pe) => {
                    &&& final(self).pin.faults() == old(self).pin.faults().push(pe)
                    &&& final(self).pin.poll_fallible()
                    &&& measure_poll_state(old(self).script(), high, final(self).script())
                },
                ErrorKind::Checksum { .. } => false,
            }),
    {
        let ghost s0 = self.pin.script();
        let mut len: u16 = 0;
        while len < 256
            invariant
                s0 == old(self).pin.script(),
                len <= 256,
                len <= s0.len(),
                forall|i: int| 0 <= i < len ==> s0[i] == high,
                self.pin.script() == s0.skip(len as int),
                self.pin.in_critical() == old(self).pin.in_critical(),
                self.pin.drives() == old(self).pin.drives(),
                self.pin.faults() == old(self).pin.faults(),
                len > 0 ==> !self.pin.hold_open(),
            decreases 256 - len,
        {
            match self.pin.is_high() {
                Err(e) => {
                    proof {
                        lemma_lead_len_ge(s0, high, len as int);
                        assert(measure_poll_state(s0, high, self.pin.script())) by {
                            assert(self.pin.script() == s0.skip(len as int));
                        }
                    }
                    return Err(ErrorKind::Io(e));
                },
                Ok(level) => {
                    proof {
                        assert(s0.skip(len as int)[0] == s0[len as int]);
                    }
                    if level != high {
                        proof {
                            lemma_lead_len_at(s0, high, len as int);
                        }
                        return Ok(len as u8);
                    }
                    proof {
                        lemma_seq_skip_of_skip(s0, len as int, 1);
                    }
                    self.pin.delay_us(1);
                    len += 1;
                },
            }
        }
        proof {
            lemma_lead_len_ge(s0, high, 256);
        }
        Err(ErrorKind::Timeout)
    }

    /// Drives the start-signal protocol — exactly the drives and holds of
    /// [`start_signal_trace`], in order, and no other — then consumes the
    /// sensor's acknowledgement low and high pulses. The acknowledgement
    /// durations are not validated; only that both transitions arrive
    /// before the per-pulse timeout.
    fn start_signal_blocking(&mut self) -> (r: Result<(), ErrorKind<P::Error>>)
        ensures
            final(self).suppressed() == old(self).suppressed(),
            r matches Ok(_) ==> {
                &&& ack_ok(old(self).script())
                &&& final(self).script() == ack_rest(old(self).script())
                &&& final(self).pin.drives() == old(self).pin.drives() + start_signal_trace()
                &&& !final(self).pin.hold_open()
                &&& final(self).pin.faults() == old(self).pin.faults()
            },
            r matches Err(e) ==> (match e {
                ErrorKind::Timeout => {
                    &&& ack_times_out(old(self).script())
                    &&& final(self).script() == ack_timeout_rest(old(self).script())
                    &&& final(self).pin.drives() == old(self).pin.drives()
                        + start_signal_trace()
                    &&& !final(self).pin.hold_open()
                    &&& final(self).pin.faults() == old(self).pin.faults()
                },
                ErrorKind::Io(pe) => {
                    &&& final(self).pin.faults() == old(self).pin.faults().push(pe)
                    &&& ((final(self).pin.drive_fallible() && final(self).script() == old(self).script()) || (final(self).pin.poll_fallible() && ack_poll_state(
                        old(self).script(),
                        final(self).script(),
                    )))
                },
                ErrorKind::Checksum { .. } => false,
            }),
    {
        let ghost d0 = self.pin.drives();
        let ghost s0 = self.pin.script();
        match self.pin.set_high() {
            Ok(_) => (),
            Err(e) => {
                return Err(ErrorKind::Io(e));
            },
        }
        self.pin.delay_ms(1);
        proof {
            lemma_extend_hold_of_push(d0, true, 1000);
        }
        match self.pin.set_low() {
            Ok(_) => (),
            Err(e) => {
                return Err(ErrorKind::Io(e));
            },
        }
        self.pin.delay_us(1200);
        proof {
            lemma_extend_hold_of_push(d0.push((true, 1000int)), false, 1200);
        }
        match self.pin.set_high() {
            Ok(_) => (),
            Err(e) => {
                return Err(ErrorKind::Io(e));
            },
        }
        self.pin.delay_us(40);
        proof {
            lemma_extend_hold_of_push(
                d0.push((true, 1000int)).push((false, 1200int)),
                true,
                40,
            );
            assert(self.pin.drives() =~= d0 + start_signal_trace());
        }
        match self.read_pulse_us(false) {
            Ok(_) => (),
            Err(e) => {
                proof {
                    if e is Io {
                        assert(ack_poll_state(s0, self.pin.script()));
                    }
                }
                return Err(e);
            },
        }
        match self.read_pulse_us(true) {
            Ok(_) => (),
            Err(e) => {
                proof {
                    if e is Io {
                        assert(ack_poll_state(s0, self.pin.script()));
                    }
                }
                return Err(e);
            },
        }
        Ok(())
    }

    /// Performs one complete reading: the start signal, acquisition of 40
    /// pulse pairs inside a preemption-suppressed window, then decoding
    /// and checksum validation. Every fallible step short-circuits the
    /// whole call: no partial reading is ever returned, a reading comes
    /// out exactly when the script after the acknowledgement yields 40
    /// pulse pairs carrying a valid frame, and an `Io` error appears
    /// exactly when one pin operation failed, whose error it carries
    /// verbatim. The suppression acquired for the window is released on
    /// every exit path.
    pub fn read_blocking(&mut self) -> (r: Result<Reading, Error<P::Error>>)
        ensures
            read_spec(*old(self), *final(self), r),
    {
        match self.start_signal_blocking() {
            Ok(_) => (),
            Err(e) => {
                return Err(Error(e));
            },
        }
        let ghost sa = self.pin.script();
        let mut pulses: Vec<Pulse> = Vec::new();
        self.pin.enter_critical();
        let mut idx: usize = 0;
        while idx < 40
            invariant
                sa == ack_rest(old(self).pin.script()),
                ack_ok(old(self).pin.script()),
                idx <= 40,
                pulses_ok(sa, idx as nat),
                pulses@ == pulses_val(sa, idx as nat),
                pulses@.len() == idx,
                self.pin.script() == pulses_rest(sa, idx as nat),
                self.pin.in_critical(),
                self.pin.drives() == old(self).pin.drives() + start_signal_trace(),
                self.pin.faults() == old(self).pin.faults(),
            decreases 40 - idx,
        {
            let ghost cur = self.pin.script();
            let lo = match self.read_pulse_us(false) {
                Ok(v) => v,
                Err(e) => {
                    proof {
                        if e is Timeout {
                            lemma_pulses_time_out_from(sa, idx as nat, 40);
                        }
                        if e is Io {
                            assert(ack_poll_state(cur, self.pin.script()));
                            lemma_pulses_poll_state_from(sa, idx as nat, 40, self.pin.script());
                        }
                    }
                    self.pin.exit_critical();
                    return Err(Error(e));
                },
            };
            let hi = match self.read_pulse_us(true) {
                Ok(v) => v,
                Err(e) => {
                    proof {
                        if e is Timeout {
                            lemma_pulses_time_out_from(sa, idx as nat, 40);
                        }
                        if e is Io {
                            assert(ack_poll_state(cur, self.pin.script()));
                            lemma_pulses_poll_state_from(sa, idx as nat, 40, self.pin.script());
                        }
                    }
                    self.pin.exit_critical();
                    return Err(Error(e));
                },
            };
            pulses.push(Pulse { lo, hi });
            proof {
                lemma_pulses_extend(sa, idx as nat);
            }
            idx += 1;
        }
        self.pin.exit_critical();
        proof {
            lemma_time_out_excludes_ok(sa, 40);
        }
        match Reading::from_pulses(&pulses) {
            Ok(reading) => Ok(reading),
            Err(e) => Err(Error(e)),
        }
    }
}

/// Law: against a line stuck at one level, a whole read can only time
/// out. For any result and post-state consistent with one call of
/// [`DHT22::read_blocking`] on a script that never transitions (and
/// outlasts one measurement), on a pin whose drives cannot fail and
/// whose polls fail only on an exhausted script — the scripted pin is
/// such a pin — the result is the timeout error: never a reading, never
/// a checksum verdict, never an I/O error. What remains of the script is
/// the same stuck script, one measurement shorter, so repeated reads
/// keep timing out for as long as it lasts: no stale reading can ever
/// surface, because the driver has nowhere to hold one.
pub proof fn lemma_stuck_line_forces_timeout<P: SensorPin>(
    pre: DHT22<P>,
    post: DHT22<P>,
    r: Result<Reading, Error<P::Error>>,
    level: bool,
)
    requires
        read_spec(pre, post, r),
        pre.script().len() >= 257,
        forall|i: int| 0 <= i < pre.script().len() ==> pre.script()[i] == level,
        !post.pin.drive_fallible(),
        post.pin.poll_fallible() ==> post.script().len() == 0,
    ensures
        r matches Err(e) && e.0 is Timeout,
        post.script() == (if level {
            pre.script().skip(257)
        } else {
            pre.script().skip(256)
        }),
        post.script().len() == pre.script().len() - (if level {
            257int
        } else {
            256int
        }),
        forall|i: int| 0 <= i < post.script().len() ==> post.script()[i] == level,
{
    let s = pre.script();
    lemma_stuck_script(s, level);
    match r {
        Ok(_) => {},
        Err(e) => match e.0 {
            ErrorKind::Timeout => {},
            ErrorKind::Checksum { .. } => {},
            ErrorKind::Io(_) => {
                assert(!ack_ok(s));
            },
        },
    }
    let consumed: int = if level {
        257
    } else {
        256
    };
    assert forall|i: int| 0 <= i < post.script().len() implies post.script()[i] == level by {
        assert(post.script()[i] == s[i + consumed]);
    }
}

/// Law: a script carrying a full, checksum-valid frame forces a reading.
/// For any result and post-state consistent with one call of
/// [`DHT22::read_blocking`] on a script whose acknowledgement and 40
/// pulse pairs all measure within the per-pulse bound and whose frame
/// passes validation, on a pin whose drives cannot fail and whose polls
/// fail only on an exhausted script, the result is `Ok`, and the reading
/// is exactly the decode of those pulses.
pub proof fn lemma_good_script_forces_reading<P: SensorPin>(
    pre: DHT22<P>,
    post: DHT22<P>,
    r: Result<Reading, Error<P::Error>>,
)
    requires
        read_spec(pre, post, r),
        ack_ok(pre.script()),
        pulses_ok(ack_rest(pre.script()), 40),
        frame_valid(pulses_val(ack_rest(pre.script()), 40)),
        !post.pin.drive_fallible(),
        post.pin.poll_fallible() ==> post.script().len() == 0,
    ensures
        r matches Ok(reading) && reading == decoded(pulses_val(ack_rest(pre.script()), 40)),
{
    let s = pre.script();
    let sa = ack_rest(s);
    lemma_ack_ok_poll_states(s);
    lemma_pulses_ok_poll_states(sa, 40);
    lemma_time_out_excludes_ok(sa, 40);
    match r {
        Ok(_) => {},
        Err(e) => match e.0 {
            ErrorKind::Timeout => {},
            ErrorKind::Checksum { .. } => {},
            ErrorKind::Io(_) => {},
        },
    }
}

} // verus!
