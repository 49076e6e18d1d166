//! The single-wire pin abstraction the driver runs against.

use vstd::prelude::*;

verus! {

/// A drive trace grows by `(level, 0)` on each drive; a delay while the
/// hold after the last drive is still open adds its microseconds to that
/// last entry. Once a poll happens, the hold is closed and the pacing
/// delays between polls no longer count as protocol holds.
pub open spec fn extend_hold(drives: Seq<(bool, int)>, us: int) -> Seq<(bool, int)> {
    if drives.len() == 0 {
        drives
    } else {
        drives.update(drives.len() - 1, (drives.last().0, drives.last().1 + us))
    }
}

/// Extending the hold right after a drive folds into the drive's entry.
pub proof fn lemma_extend_hold_of_push(drives: Seq<(bool, int)>, level: bool, us: int)
    ensures
        extend_hold(drives.push((level, 0int)), us) == drives.push((level, us)),
{
    let grown = drives.push((level, 0int));
    assert(grown.last() == (level, 0int));
    assert(extend_hold(grown, us) =~= drives.push((level, us)));
}

/// Everything the driver needs from its environment: read the line's
/// current logic level, drive the line, busy-wait a fixed time, and
/// suppress preemption around the acquisition window. The driver owns the
/// pin exclusively for the duration of a read; it is the caller's job to
/// configure the line (open-drain input/output) before construction.
///
/// Ghost state describing an implementation:
///
/// * [`SensorPin::script`] is the sequence of logic levels that successive
///   polls of the line will observe, one entry per poll. A successful poll
///   consumes the front of the script; driving the line, delaying and
///   failed operations do not poll, so they leave it untouched — the
///   script already describes what the polls *will* see, the sensor's
///   response to the driver's fixed start-signal protocol included.
/// * [`SensorPin::drives`] and [`SensorPin::hold_open`] record the levels
///   the host drove and how long it held each before the next drive or
///   the first poll (see [`extend_hold`]); the microsecond pacing between
///   polls of one measurement is part of polling, not of the protocol.
/// * [`SensorPin::faults`] lists every error an operation has returned,
///   in order: an operation fails exactly when it appends here, and the
///   driver propagates the appended error verbatim.
/// * [`SensorPin::poll_fallible`] / [`SensorPin::drive_fallible`] say
///   whether a poll or a drive is allowed to fail *in the current state*.
///   Real hardware keeps the defaults (may fail any time); the scripted
///   pin pins them down, which is what lets a caller rule out `Io`
///   outcomes on a well-formed script.
/// * [`SensorPin::in_critical`] says whether the implementation currently
///   suppresses other schedulable work. The driver guarantees it never
///   returns holding a suppression it acquired.
///
/// A failing operation reports a fallible state, appends its error to the
/// fault trace, and leaves every other piece of ghost state as it was.
pub trait SensorPin: Sized {
    /// The pin's native error type, preserved verbatim through the
    /// driver's own error.
    type Error;

    /// The levels the line will show to successive polls.
    ///
    /// The default is the empty script: an implementation that does not
    /// override the ghost state promises nothing about what polls
    /// observe. Implementations outside the verifier, such as wrappers
    /// around real hardware, simply leave all the ghost state alone; a
    /// verified implementation overrides it (the scripted pin does).
    open spec fn script(&self) -> Seq<bool> {
        Seq::empty()
    }

    /// The drives performed so far, each with the microseconds it was
    /// held before the next drive or poll.
    open spec fn drives(&self) -> Seq<(bool, int)> {
        Seq::empty()
    }

    /// Whether the hold after the most recent drive is still accumulating
    /// (no poll has happened since).
    open spec fn hold_open(&self) -> bool {
        false
    }

    /// Every error returned so far, in order.
    open spec fn faults(&self) -> Seq<Self::Error> {
        Seq::empty()
    }

    /// Whether a poll may fail in the current state. Defaults to `true`:
    /// real hardware may fail at any time.
    open spec fn poll_fallible(&self) -> bool {
        true
    }

    /// Whether a drive may fail in the current state. Defaults to `true`.
    open spec fn drive_fallible(&self) -> bool {
        true
    }

    /// Whether other schedulable work is currently suppressed. Defaults
    /// to never-suppressed; implementations with a real suppression
    /// primitive override it.
    open spec fn in_critical(&self) -> bool {
        false
    }

    /// Polls the line once. A successful poll observes the front of the
    /// script, consumes it, and closes any open hold; a failed poll
    /// reports a state where polls may fail, records the error, and
    /// changes nothing else.
    fn is_high(&mut self) -> (r: Result<bool, Self::Error>)
        ensures
            final(self).in_critical() == old(self).in_critical(),
            r matches Ok(level) ==> {
                &&& old(self).script().len() >= 1
                &&& level == old(self).script()[0]
                &&& final(self).script() == old(self).script().skip(1)
                &&& final(self).drives() == old(self).drives()
                &&& !final(self).hold_open()
                &&& final(self).faults() == old(self).faults()
            },
            r matches Err(e) ==> {
                &&& old(self).poll_fallible()
                &&& final(self).script() == old(self).script()
                &&& final(self).drives() == old(self).drives()
                &&& final(self).hold_open() == old(self).hold_open()
                &&& final(self).poll_fallible() == old(self).poll_fallible()
                &&& final(self).drive_fallible() == old(self).drive_fallible()
                &&& final(self).faults() == old(self).faults().push(e)
            },
    ;

    /// Drives the line high. Driving does not poll; a failed drive
    /// reports a state where drives may fail, records the error, and
    /// changes nothing else.
    fn set_high(&mut self) -> (r: Result<(), Self::Error>)
        ensures
            final(self).in_critical() == old(self).in_critical(),
            r matches Ok(_) ==> {
                &&& final(self).script() == old(self).script()
                &&& final(self).drives() == old(self).drives().push((true, 0int))
                &&& final(self).hold_open()
                &&& final(self).faults() == old(self).faults()
            },
            r matches Err(e) ==> {
                &&& old(self).drive_fallible()
                &&& final(self).script() == old(self).script()
                &&& final(self).drives() == old(self).drives()
                &&& final(self).hold_open() == old(self).hold_open()
                &&& final(self).poll_fallible() == old(self).poll_fallible()
                &&& final(self).drive_fallible() == old(self).drive_fallible()
                &&& final(self).faults() == old(self).faults().push(e)
            },
    ;

    /// Drives the line low; otherwise as [`SensorPin::set_high`].
    fn set_low(&mut self) -> (r: Result<(), Self::Error>)
        ensures
            final(self).in_critical() == old(self).in_critical(),
            r matches Ok(_) ==> {
                &&& final(self).script() == old(self).script()
                &&& final(self).drives() == old(self).drives().push((false, 0int))
                &&& final(self).hold_open()
                &&& final(self).faults() == old(self).faults()
            },
            r matches Err(e) ==> {
                &&& old(self).drive_fallible()
                &&& final(self).script() == old(self).script()
                &&& final(self).drives() == old(self).drives()
                &&& final(self).hold_open() == old(self).hold_open()
                &&& final(self).poll_fallible() == old(self).poll_fallible()
                &&& final(self).drive_fallible() == old(self).drive_fallible()
                &&& final(self).faults() == old(self).faults().push(e)
            },
    ;

    /// Busy-waits the given number of whole microseconds, extending the
    /// open hold if there is one.
    fn delay_us(&mut self, us: u32)
        ensures
            final(self).script() == old(self).script(),
            final(self).in_critical() == old(self).in_critical(),
            final(self).faults() == old(self).faults(),
            final(self).hold_open() == old(self).hold_open(),
            final(self).poll_fallible() == old(self).poll_fallible(),
            final(self).drive_fallible() == old(self).drive_fallible(),
            final(self).drives() == (if old(self).hold_open() {
                extend_hold(old(self).drives(), us as int)
            } else {
                old(self).drives()
            }),
    ;

    /// Busy-waits the given number of whole milliseconds, extending the
    /// open hold if there is one.
    fn delay_ms(&mut self, ms: u32)
        ensures
            final(self).script() == old(self).script(),
            final(self).in_critical() == old(self).in_critical(),
            final(self).faults() == old(self).faults(),
            final(self).hold_open() == old(self).hold_open(),
            final(self).poll_fallible() == old(self).poll_fallible(),
            final(self).drive_fallible() == old(self).drive_fallible(),
            final(self).drives() == (if old(self).hold_open() {
                extend_hold(old(self).drives(), 1000 * (ms as int))
            } else {
                old(self).drives()
            }),
    ;

    /// Begins the preemption-suppressed window around bit acquisition.
    /// Suppression touches no other ghost state.
    fn enter_critical(&mut self)
        ensures
            final(self).script() == old(self).script(),
            final(self).drives() == old(self).drives(),
            final(self).hold_open() == old(self).hold_open(),
            final(self).faults() == old(self).faults(),
            final(self).poll_fallible() == old(self).poll_fallible(),
            final(self).drive_fallible() == old(self).drive_fallible(),
            final(self).in_critical(),
    ;

    /// Ends the preemption-suppressed window.
    fn exit_critical(&mut self)
        ensures
            final(self).script() == old(self).script(),
            final(self).drives() == old(self).drives(),
            final(self).hold_open() == old(self).hold_open(),
            final(self).faults() == old(self).faults(),
            final(self).poll_fallible() == old(self).poll_fallible(),
            final(self).drive_fallible() == old(self).drive_fallible(),
            !final(self).in_critical(),
    ;
}

} // verus!
