//! The mathematical model of sampling pulses off the line.
//!
//! A pin's future is modelled as a *script*: the sequence of logic levels
//! that successive polls of the line will observe, one entry per poll (the
//! driver polls once per microsecond). Everything the driver does with the
//! line — measuring one pulse, consuming the sensor's acknowledgement,
//! acquiring the 40 bit pulses — is specified here as a function of that
//! script, and the executable code is proved to refine these functions.

use vstd::prelude::*;
use crate::pulse::Pulse;

verus! {

/// How many consecutive polls, from the front of script `s`, observe the
/// line still at `level`: the index of the first entry that differs, or
/// `s.len()` if none does.
pub open spec fn lead_len(s: Seq<bool>, level: bool) -> int
    decreases s.len(),
{
    if s.len() == 0 {
        0
    } else if s[0] != level {
        0
    } else {
        1 + lead_len(s.skip(1), level)
    }
}

/// The basic shape of [`lead_len`]: it is a valid index bound, everything
/// before it matches `level`, and the entry at it (if any) does not.
pub proof fn lemma_lead_len_bounds(s: Seq<bool>, level: bool)
    ensures
        0 <= lead_len(s, level) <= s.len(),
        forall|i: int| 0 <= i < lead_len(s, level) ==> s[i] == level,
        lead_len(s, level) < s.len() ==> s[lead_len(s, level)] != level,
    decreases s.len(),
{
    if s.len() == 0 {
    } else if s[0] != level {
    } else {
        let t = s.skip(1);
        lemma_lead_len_bounds(t, level);
        assert forall|i: int| 0 <= i < lead_len(s, level) implies s[i] == level by {
            if i >= 1 {
                assert(t[i - 1] == s[i]);
            }
        }
        if lead_len(s, level) < s.len() {
            assert(t[lead_len(t, level)] == s[lead_len(s, level)]);
        }
    }
}

/// If the first `k` entries of `s` all match `level`, the line holds
/// `level` for at least `k` polls.
pub proof fn lemma_lead_len_ge(s: Seq<bool>, level: bool, k: int)
    requires
        0 <= k <= s.len(),
        forall|i: int| 0 <= i < k ==> s[i] == level,
    ensures
        lead_len(s, level) >= k,
{
    lemma_lead_len_bounds(s, level);
    if lead_len(s, level) < k {
        assert(s[lead_len(s, level)] == level);
    }
}

/// If the first `k` entries match `level` and entry `k` does not, the
/// measured duration is exactly `k`.
pub proof fn lemma_lead_len_at(s: Seq<bool>, level: bool, k: int)
    requires
        0 <= k < s.len(),
        forall|i: int| 0 <= i < k ==> s[i] == level,
        s[k] != level,
    ensures
        lead_len(s, level) == k,
{
    lemma_lead_len_bounds(s, level);
    lemma_lead_len_ge(s, level, k);
    if lead_len(s, level) > k {
        assert(s[k] == level);
    }
}

/// A measurement of how long the line stays at `level` succeeds when the
/// line leaves `level` within the script, and within the 255-microsecond
/// bound (at most 255 matching polls before the transition).
pub open spec fn measure_ok(s: Seq<bool>, level: bool) -> bool {
    lead_len(s, level) < 256 && lead_len(s, level) < s.len()
}

/// 256 polls in a row observed `level`: the per-pulse timeout fires.
pub open spec fn measure_times_out(s: Seq<bool>, level: bool) -> bool {
    lead_len(s, level) >= 256
}

/// What is left of the script after a successful measurement: the matching
/// polls and the first differing poll are all consumed.
pub open spec fn measure_rest(s: Seq<bool>, level: bool) -> Seq<bool> {
    s.skip(lead_len(s, level) + 1)
}

/// The sensor's acknowledgement after the start signal: one low pulse and
/// one high pulse, both measured without timing out.
pub open spec fn ack_ok(s: Seq<bool>) -> bool {
    measure_ok(s, false) && measure_ok(measure_rest(s, false), true)
}

/// The script left after consuming the acknowledgement pulses.
pub open spec fn ack_rest(s: Seq<bool>) -> Seq<bool> {
    measure_rest(measure_rest(s, false), true)
}

/// The acknowledgement phase hits the per-pulse timeout.
pub open spec fn ack_times_out(s: Seq<bool>) -> bool {
    measure_times_out(s, false)
    || (measure_ok(s, false) && measure_times_out(measure_rest(s, false), true))
}

/// The script left behind by an acknowledgement that timed out: the 256
/// matching polls of the timed-out measurement are consumed.
pub open spec fn ack_timeout_rest(s: Seq<bool>) -> Seq<bool> {
    if measure_times_out(s, false) {
        s.skip(256)
    } else {
        measure_rest(s, false).skip(256)
    }
}

/// The scripts at which a poll happens while one duration is measured
/// off `s`: polls 0 through `k` of a measurement each see the script with
/// the `k` matching entries before them consumed. The poll that fails
/// during a measurement sees one of these.
pub open spec fn measure_poll_state(s: Seq<bool>, level: bool, f: Seq<bool>) -> bool {
    exists|k: int| 0 <= k <= 255 && k <= lead_len(s, level) && f == s.skip(k)
}

/// The scripts at which a poll happens while the two pulses of an
/// acknowledgement — or of one bit's low/high pair, which has the same
/// shape — are measured off `s`.
pub open spec fn ack_poll_state(s: Seq<bool>, f: Seq<bool>) -> bool {
    measure_poll_state(s, false, f) || (measure_ok(s, false) && measure_poll_state(
        measure_rest(s, false),
        true,
        f,
    ))
}

/// `n` low/high pulse pairs can be measured off script `s`, none timing
/// out.
pub open spec fn pulses_ok(s: Seq<bool>, n: nat) -> bool
    decreases n,
{
    n == 0 || {
        &&& measure_ok(s, false)
        &&& measure_ok(measure_rest(s, false), true)
        &&& pulses_ok(measure_rest(measure_rest(s, false), true), (n - 1) as nat)
    }
}

/// The `n` pulse pairs measured off script `s`, in order.
pub open spec fn pulses_val(s: Seq<bool>, n: nat) -> Seq<Pulse>
    decreases n,
{
    if n == 0 {
        Seq::empty()
    } else {
        let s1 = measure_rest(s, false);
        let first = Pulse { lo: lead_len(s, false) as u8, hi: lead_len(s1, true) as u8 };
        seq![first] + pulses_val(measure_rest(s1, true), (n - 1) as nat)
    }
}

/// The script left after measuring `n` pulse pairs off `s`.
pub open spec fn pulses_rest(s: Seq<bool>, n: nat) -> Seq<bool>
    decreases n,
{
    if n == 0 {
        s
    } else {
        pulses_rest(measure_rest(measure_rest(s, false), true), (n - 1) as nat)
    }
}

/// Measuring `n` pulse pairs off script `s` hits the per-pulse timeout
/// somewhere before all `n` are in.
pub open spec fn pulses_time_out(s: Seq<bool>, n: nat) -> bool
    decreases n,
{
    n > 0 && (measure_times_out(s, false) || {
        measure_ok(s, false) && {
            let s1 = measure_rest(s, false);
            measure_times_out(s1, true)
            || (measure_ok(s1, true) && pulses_time_out(measure_rest(s1, true), (n - 1) as nat))
        }
    })
}

/// The script left behind by an acquisition that timed out: everything up
/// to and including the 256 matching polls of the first timed-out
/// measurement is consumed. Meaningful when [`pulses_time_out`] holds.
pub open spec fn pulses_timeout_rest(s: Seq<bool>, n: nat) -> Seq<bool>
    decreases n,
{
    if n == 0 {
        s
    } else if measure_times_out(s, false) {
        s.skip(256)
    } else if measure_times_out(measure_rest(s, false), true) {
        measure_rest(s, false).skip(256)
    } else {
        pulses_timeout_rest(measure_rest(measure_rest(s, false), true), (n - 1) as nat)
    }
}

/// The scripts at which a poll happens while up to `n` pulse pairs are
/// measured off `s`: the poll that fails during the acquisition sees one
/// of these.
pub open spec fn pulses_poll_state(s: Seq<bool>, n: nat, f: Seq<bool>) -> bool
    decreases n,
{
    n > 0 && {
        ||| measure_poll_state(s, false, f)
        ||| (measure_ok(s, false) && {
            let s1 = measure_rest(s, false);
            measure_poll_state(s1, true, f) || (measure_ok(s1, true) && pulses_poll_state(
                measure_rest(s1, true),
                (n - 1) as nat,
                f,
            ))
        })
    }
}

/// Extending a completed prefix of pulse pairs by one more measured pair.
pub proof fn lemma_pulses_extend(s: Seq<bool>, n: nat)
    requires
        pulses_ok(s, n),
        measure_ok(pulses_rest(s, n), false),
        measure_ok(measure_rest(pulses_rest(s, n), false), true),
    ensures
        pulses_ok(s, n + 1),
        pulses_rest(s, n + 1) == measure_rest(measure_rest(pulses_rest(s, n), false), true),
        pulses_val(s, n + 1) == pulses_val(s, n).push(Pulse {
            lo: lead_len(pulses_rest(s, n), false) as u8,
            hi: lead_len(measure_rest(pulses_rest(s, n), false), true) as u8,
        }),
    decreases n,
{
    let p = Pulse {
        lo: lead_len(pulses_rest(s, n), false) as u8,
        hi: lead_len(measure_rest(pulses_rest(s, n), false), true) as u8,
    };
    if n == 0 {
        assert(pulses_rest(s, 0) == s);
        let s2 = measure_rest(measure_rest(s, false), true);
        assert(pulses_ok(s2, 0));
        assert(pulses_ok(s, 1));
        assert(pulses_rest(s, 1) == pulses_rest(s2, 0));
        assert(pulses_val(s, 1) == seq![p] + pulses_val(s2, 0));
        assert(pulses_val(s2, 0) =~= Seq::<Pulse>::empty());
        assert(pulses_val(s, 0) =~= Seq::<Pulse>::empty());
        assert(pulses_val(s, 1) =~= pulses_val(s, 0).push(p));
    } else {
        let s2 = measure_rest(measure_rest(s, false), true);
        let p0 = Pulse {
            lo: lead_len(s, false) as u8,
            hi: lead_len(measure_rest(s, false), true) as u8,
        };
        assert(pulses_rest(s, n) == pulses_rest(s2, (n - 1) as nat));
        lemma_pulses_extend(s2, (n - 1) as nat);
        assert(pulses_ok(s, n + 1));
        assert(pulses_rest(s, n + 1) == pulses_rest(s2, n));
        assert(pulses_val(s, n + 1) == seq![p0] + pulses_val(s2, n));
        assert(pulses_val(s, n) == seq![p0] + pulses_val(s2, (n - 1) as nat));
        assert(pulses_val(s2, n) == pulses_val(s2, (n - 1) as nat).push(p));
        assert(seq![p0] + pulses_val(s2, (n - 1) as nat).push(p)
            =~= (seq![p0] + pulses_val(s2, (n - 1) as nat)).push(p));
    }
}

/// A timeout while measuring pair `k` (of `n`) is a timeout of the whole
/// acquisition, and it pins down the script the acquisition leaves
/// behind.
pub proof fn lemma_pulses_time_out_from(s: Seq<bool>, k: nat, n: nat)
    requires
        k < n,
        pulses_ok(s, k),
        measure_times_out(pulses_rest(s, k), false)
        || (measure_ok(pulses_rest(s, k), false)
            && measure_times_out(measure_rest(pulses_rest(s, k), false), true)),
    ensures
        pulses_time_out(s, n),
        pulses_timeout_rest(s, n) == (if measure_times_out(pulses_rest(s, k), false) {
            pulses_rest(s, k).skip(256)
        } else {
            measure_rest(pulses_rest(s, k), false).skip(256)
        }),
    decreases k,
{
    if k == 0 {
    } else {
        let s2 = measure_rest(measure_rest(s, false), true);
        lemma_pulses_time_out_from(s2, (k - 1) as nat, (n - 1) as nat);
    }
}

/// A poll state reached while measuring pair `k` (of `n`) is a poll state
/// of the whole acquisition. One pair's poll states have exactly the
/// shape of an acknowledgement's, so [`ack_poll_state`] describes them.
pub proof fn lemma_pulses_poll_state_from(s: Seq<bool>, k: nat, n: nat, f: Seq<bool>)
    requires
        k < n,
        pulses_ok(s, k),
        ack_poll_state(pulses_rest(s, k), f),
    ensures
        pulses_poll_state(s, n, f),
    decreases k,
{
    if k == 0 {
    } else {
        let s2 = measure_rest(measure_rest(s, false), true);
        lemma_pulses_poll_state_from(s2, (k - 1) as nat, (n - 1) as nat, f);
    }
}

/// While an acknowledgement that succeeds is measured, every poll sees a
/// script with entries left: a measurement stops strictly before the
/// script runs out.
pub proof fn lemma_ack_ok_poll_states(s: Seq<bool>)
    requires
        ack_ok(s),
    ensures
        forall|f: Seq<bool>| ack_poll_state(s, f) ==> f.len() >= 1,
{
    assert forall|f: Seq<bool>| ack_poll_state(s, f) implies f.len() >= 1 by {
        if measure_poll_state(s, false, f) {
            let k = choose|k: int| 0 <= k <= 255 && k <= lead_len(s, false) && f == s.skip(k);
            assert(f.len() == s.len() - k);
        } else {
            let s1 = measure_rest(s, false);
            let k = choose|k: int| 0 <= k <= 255 && k <= lead_len(s1, true) && f == s1.skip(k);
            assert(f.len() == s1.len() - k);
        }
    }
}

/// While an acquisition that completes is measured, every poll sees a
/// script with entries left.
pub proof fn lemma_pulses_ok_poll_states(s: Seq<bool>, n: nat)
    requires
        pulses_ok(s, n),
    ensures
        forall|f: Seq<bool>| pulses_poll_state(s, n, f) ==> f.len() >= 1,
    decreases n,
{
    if n > 0 {
        let s1 = measure_rest(s, false);
        let s2 = measure_rest(s1, true);
        lemma_pulses_ok_poll_states(s2, (n - 1) as nat);
        assert forall|f: Seq<bool>| pulses_poll_state(s, n, f) implies f.len() >= 1 by {
            if measure_poll_state(s, false, f) {
                let k = choose|k: int|
                    0 <= k <= 255 && k <= lead_len(s, false) && f == s.skip(k);
                assert(f.len() == s.len() - k);
            } else if measure_poll_state(s1, true, f) {
                let k = choose|k: int|
                    0 <= k <= 255 && k <= lead_len(s1, true) && f == s1.skip(k);
                assert(f.len() == s1.len() - k);
            } else {
                assert(pulses_poll_state(s2, (n - 1) as nat, f));
            }
        }
    }
}

/// Law: a line stuck at one level is the pure timeout case. On a script
/// that never transitions (long enough to outlast one measurement), the
/// acknowledgement cannot complete, it times out, every script a poll
/// can see still has entries left, and what the timed-out read leaves
/// behind is the same stuck script, 256 or 257 polls shorter — so a
/// driver whose pin only fails on an empty script can answer nothing but
/// a timeout, on this read and on every following one.
pub proof fn lemma_stuck_script(s: Seq<bool>, level: bool)
    requires
        s.len() >= 257,
        forall|i: int| 0 <= i < s.len() ==> s[i] == level,
    ensures
        !ack_ok(s),
        ack_times_out(s),
        ack_timeout_rest(s) == (if level {
            s.skip(257)
        } else {
            s.skip(256)
        }),
        forall|f: Seq<bool>| ack_poll_state(s, f) ==> f.len() >= s.len() - 256,
{
    lemma_lead_len_bounds(s, level);
    lemma_lead_len_ge(s, level, 257);
    let r1 = measure_rest(s, false);
    if level {
        lemma_lead_len_at(s, false, 0);
        assert(r1 =~= s.skip(1));
        assert forall|i: int| 0 <= i < r1.len() implies r1[i] == level by {
            assert(r1[i] == s[i + 1]);
        }
        lemma_lead_len_ge(r1, true, 256);
        assert(r1.skip(256) =~= s.skip(257));
    } else {
        assert(lead_len(s, false) >= 257);
    }
    assert forall|f: Seq<bool>| ack_poll_state(s, f) implies f.len() >= s.len() - 256 by {
        if measure_poll_state(s, false, f) {
            let k = choose|k: int| 0 <= k <= 255 && k <= lead_len(s, false) && f == s.skip(k);
            assert(f.len() == s.len() - k);
        } else {
            let k = choose|k: int|
                0 <= k <= 255 && k <= lead_len(r1, true) && f == r1.skip(k);
            assert(measure_ok(s, false));
            assert(f.len() == r1.len() - k);
            assert(r1.len() == s.len() - 1);
        }
    }
}

/// An acquisition cannot both complete and time out: the timeout verdict on
/// a script is definitive, so a timed-out script can never yield a reading.
pub proof fn lemma_time_out_excludes_ok(s: Seq<bool>, n: nat)
    ensures
        !(pulses_ok(s, n) && pulses_time_out(s, n)),
    decreases n,
{
    if n > 0 && pulses_ok(s, n) && pulses_time_out(s, n) {
        let s2 = measure_rest(measure_rest(s, false), true);
        lemma_time_out_excludes_ok(s2, (n - 1) as nat);
    }
}

} // verus!
