//! A simulated pin: replays a pre-recorded script of logic levels.

use vstd::prelude::*;
use vstd::seq_lib::lemma_seq_skip_of_skip;
use crate::pin::{extend_hold, SensorPin};

verus! {

/// The native error of a [`ScriptedPin`]: its script ran out, so the line
/// could not be polled again.
#[derive(Copy, Clone, Debug, PartialEq, Eq, Structural)]
pub struct ScriptEnd;

/// A pin whose polls replay a fixed script of logic levels, one entry per
/// poll. Driving the line and delaying are no-ops on the line: the script
/// already *is* the sequence of levels the polls will see; they are still
/// recorded in the ghost drive trace, so contracts over the start-signal
/// protocol bite. Useful for exercising the driver without hardware.
///
/// A scripted pin is as reliable as its script is long: polls succeed
/// exactly while script entries remain ([`ScriptedPin::is_high`] returns
/// `Ok` if and only if the script is non-empty), drives and delays always
/// succeed, and the only fault it can ever produce is [`ScriptEnd`], on a
/// poll past the end of the script.
pub struct ScriptedPin {
    levels: Vec<bool>,
    pos: usize,
    critical: bool,
    driven: Vec<(bool, u64)>,
    holding: bool,
    drive_log: Ghost<Seq<(bool, int)>>,
    fault_log: Ghost<Seq<ScriptEnd>>,
}

impl ScriptedPin {
    /// A pin that will show exactly `levels` to successive polls, with
    /// nothing driven, no fault yet, and preemption not suppressed.
    pub fn new(levels: Vec<bool>) -> (r: Self)
        ensures
            r.script() == levels@,
            r.drives() == Seq::<(bool, int)>::empty(),
            !r.hold_open(),
            r.faults() == Seq::<ScriptEnd>::empty(),
            !r.in_critical(),
    {
        let pin = ScriptedPin {
            levels,
            pos: 0,
            critical: false,
            driven: Vec::new(),
            holding: false,
            drive_log: Ghost(Seq::empty()),
            fault_log: Ghost(Seq::empty()),
        };
        proof {
            assert(pin.levels@.skip(0) =~= pin.levels@);
        }
        pin
    }

    /// The drives recorded at run time, for inspection after a read:
    /// each level driven with the microseconds it was held before the
    /// next drive or the first poll. This is the ghost
    /// [`SensorPin::drives`] trace as runtime data, with holds
    /// saturating at `u64::MAX` — out of reach for the driver's fixed
    /// protocol.
    pub closed spec fn recorded(&self) -> Seq<(bool, u64)> {
        self.driven@
    }

    /// Hands out the runtime drive record.
    pub fn driven_log(&self) -> (r: &Vec<(bool, u64)>)
        ensures
            r@ == self.recorded(),
    {
        &self.driven
    }

    /// Accumulates a hold on the last runtime drive record entry,
    /// saturating at `u64::MAX`. Touches nothing else.
    fn record_hold(&mut self, us: u64)
        ensures
            final(self).levels == old(self).levels,
            final(self).pos == old(self).pos,
            final(self).critical == old(self).critical,
            final(self).holding == old(self).holding,
            final(self).drive_log == old(self).drive_log,
            final(self).fault_log == old(self).fault_log,
    {
        match self.driven.pop() {
            Some(entry) => {
                let held: u64 = if entry.1 <= u64::MAX - us {
                    entry.1 + us
                } else {
                    u64::MAX
                };
                self.driven.push((entry.0, held));
            },
            None => {},
        }
    }
}

impl SensorPin for ScriptedPin {
    type Error = ScriptEnd;

    closed spec fn script(&self) -> Seq<bool> {
        if self.pos <= self.levels@.len() {
            self.levels@.skip(self.pos as int)
        } else {
            Seq::empty()
        }
    }

    closed spec fn drives(&self) -> Seq<(bool, int)> {
        self.drive_log@
    }

    closed spec fn hold_open(&self) -> bool {
        self.holding
    }

    closed spec fn faults(&self) -> Seq<ScriptEnd> {
        self.fault_log@
    }

    /// A poll fails exactly when the script has run out.
    open spec fn poll_fallible(&self) -> bool {
        self.script().len() == 0
    }

    /// Drives and delays never fail on a scripted pin.
    open spec fn drive_fallible(&self) -> bool {
        false
    }

    closed spec fn in_critical(&self) -> bool {
        self.critical
    }

    fn is_high(&mut self) -> (r: Result<bool, ScriptEnd>)
        ensures
            r is Ok <==> old(self).script().len() >= 1,
    {
        if self.pos < self.levels.len() {
            let level = self.levels[self.pos];
            self.pos = self.pos + 1;
            self.holding = false;
            proof {
                lemma_seq_skip_of_skip(self.levels@, old(self).pos as int, 1);
            }
            Ok(level)
        } else {
            self.fault_log = Ghost(self.fault_log@.push(ScriptEnd));
            Err(ScriptEnd)
        }
    }

    fn set_high(&mut self) -> (r: Result<(), ScriptEnd>)
        ensures
            r is Ok,
    {
        self.driven.push((true, 0));
        self.drive_log = Ghost(self.drive_log@.push((true, 0int)));
        self.holding = true;
        Ok(())
    }

    fn set_low(&mut self) -> (r: Result<(), ScriptEnd>)
        ensures
            r is Ok,
    {
        self.driven.push((false, 0));
        self.drive_log = Ghost(self.drive_log@.push((false, 0int)));
        self.holding = true;
        Ok(())
    }

    fn delay_us(&mut self, us: u32) {
        if self.holding {
            self.record_hold(us as u64);
        }
        self.drive_log = Ghost(
            if self.holding {
                extend_hold(self.drive_log@, us as int)
            } else {
                self.drive_log@
            },
        );
    }

    fn delay_ms(&mut self, ms: u32) {
        if self.holding {
            self.record_hold(1000 * (ms as u64));
        }
        self.drive_log = Ghost(
            if self.holding {
                extend_hold(self.drive_log@, 1000 * (ms as int))
            } else {
                self.drive_log@
            },
        );
    }

    fn enter_critical(&mut self) {
        self.critical = true;
    }

    fn exit_critical(&mut self) {
        self.critical = false;
    }
}

} // verus!
