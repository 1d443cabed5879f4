//! Judging one probe: arithmetic and comparisons only.

use crate::config::Config;
use crate::metrics::ProbeResult;
use crate::text::{
    decimal, law_number_is_read_back, push_decimal, push_signed_decimal, signed_decimal,
};
use vstd::prelude::*;
use vstd::string::StringExecFns;

verus! {

/// What one probe says: the measured values, for display, and the flags that
/// decide whether to alert.
#[derive(Debug)]
pub struct Analysis {
    /// Slot of the target minus slot of the reference; negative when the target
    /// is behind. Clamped to the `i64` range. For display only: the decision is
    /// `is_slot_lagging`, which is never clamped.
    pub slot_delta: i64,
    /// Response time of the target in milliseconds.
    pub target_rtt_ms: u64,
    /// Response time of the reference in milliseconds, for context.
    pub reference_rtt_ms: u64,
    /// The target is more than `slot_lag_threshold` slots behind.
    pub is_slot_lagging: bool,
    /// The target's response time is over `rtt_threshold_ms`.
    pub is_rtt_high: bool,
    /// An alert is due: at least one of the two conditions holds.
    pub needs_alert: bool,
}

impl Clone for Analysis {
    fn clone(&self) -> (copy: Self)
        ensures
            copy == *self,
    {
        Analysis {
            slot_delta: self.slot_delta,
            target_rtt_ms: self.target_rtt_ms,
            reference_rtt_ms: self.reference_rtt_ms,
            is_slot_lagging: self.is_slot_lagging,
            is_rtt_high: self.is_rtt_high,
            needs_alert: self.needs_alert,
        }
    }
}

/// `target - reference`, clamped to the `i64` range.
pub open spec fn clamped_delta(target: u64, reference: u64) -> i64 {
    if target - reference > i64::MAX {
        i64::MAX
    } else if target - reference < i64::MIN {
        i64::MIN
    } else {
        (target - reference) as i64
    }
}

/// The target is more than `threshold` slots behind the reference.
pub open spec fn lags(target: u64, reference: u64, threshold: u64) -> bool {
    reference - target > threshold
}

/// What a probe says under the given settings.
pub open spec fn analysis_of(probe: ProbeResult, cfg: Config) -> Analysis {
    let lagging = lags(probe.target.slot, probe.reference.slot, cfg.slot_lag_threshold);
    let slow = probe.target.rtt_ms > cfg.rtt_threshold_ms;
    Analysis {
        slot_delta: clamped_delta(probe.target.slot, probe.reference.slot),
        target_rtt_ms: probe.target.rtt_ms,
        reference_rtt_ms: probe.reference.rtt_ms,
        is_slot_lagging: lagging,
        is_rtt_high: slow,
        needs_alert: lagging || slow,
    }
}

/// What is said of a target that lags by `slot_delta`.
pub open spec fn lag_text(slot_delta: i64) -> Seq<char> {
    "отставание слотов: "@ + signed_decimal(slot_delta as int) + " (порог: нарушен)"@
}

/// What is said of a target that answers slowly.
pub open spec fn rtt_text(target_rtt_ms: u64, reference_rtt_ms: u64) -> Seq<char> {
    "высокий RTT: "@ + decimal(target_rtt_ms as nat) + "ms (ref: "@ + decimal(
        reference_rtt_ms as nat,
    ) + "ms)"@
}

impl Analysis {
    /// The status line: `OK`, or what is wrong.
    pub open spec fn status(self) -> Seq<char> {
        if !self.needs_alert {
            "OK"@
        } else {
            let lag = lag_text(self.slot_delta);
            let rtt = rtt_text(self.target_rtt_ms, self.reference_rtt_ms);
            if self.is_slot_lagging && self.is_rtt_high {
                lag + ", "@ + rtt
            } else if self.is_slot_lagging {
                lag
            } else if self.is_rtt_high {
                rtt
            } else {
                Seq::empty()
            }
        }
    }

    /// A readable description of the problem for the log, or `OK`.
    pub fn status_text(&self) -> (text: String)
        ensures
            text@ == self.status(),
    {
        if !self.needs_alert {
            return "OK".to_string();
        }
        let mut text = String::new();
        if self.is_slot_lagging {
            text.append("отставание слотов: ");
            push_signed_decimal(&mut text, self.slot_delta);
            text.append(" (порог: нарушен)");
            assert(text@ =~= lag_text(self.slot_delta));
        }
        if self.is_rtt_high {
            if self.is_slot_lagging {
                text.append(", ");
            }
            let ghost before = text@;
            text.append("высокий RTT: ");
            push_decimal(&mut text, self.target_rtt_ms);
            text.append("ms (ref: ");
            push_decimal(&mut text, self.reference_rtt_ms);
            text.append("ms)");
            assert(text@ =~= before + rtt_text(self.target_rtt_ms, self.reference_rtt_ms));
        }
        assert(text@ =~= self.status());
        text
    }
}

/// Judges a probe against the thresholds in the settings.
///
/// Slot numbers come unvalidated from nodes that may be hostile, so nothing here
/// can overflow, wrap or panic on any pair of them.
pub fn analyze(probe: &ProbeResult, cfg: &Config) -> (analysis: Analysis)
    ensures
        analysis == analysis_of(*probe, *cfg),
        analysis.is_slot_lagging <==> probe.reference.slot - probe.target.slot
            > cfg.slot_lag_threshold,
        analysis.is_rtt_high <==> probe.target.rtt_ms > cfg.rtt_threshold_ms,
        analysis.needs_alert <==> analysis.is_slot_lagging || analysis.is_rtt_high,
        analysis.target_rtt_ms == probe.target.rtt_ms,
        analysis.reference_rtt_ms == probe.reference.rtt_ms,
{
    let slot_delta = signed_slot_delta(probe.target.slot, probe.reference.slot);
    // How far the target is behind; zero when it is level or ahead.
    let lag: u64 = probe.reference.slot.saturating_sub(probe.target.slot);
    let is_slot_lagging = lag > cfg.slot_lag_threshold;
    let is_rtt_high = probe.target.rtt_ms > cfg.rtt_threshold_ms;
    Analysis {
        slot_delta,
        target_rtt_ms: probe.target.rtt_ms,
        reference_rtt_ms: probe.reference.rtt_ms,
        is_slot_lagging,
        is_rtt_high,
        needs_alert: is_slot_lagging || is_rtt_high,
    }
}

/// Signed distance `target - reference`, clamped to the `i64` range.
///
/// The gap is taken in `u64`, where it always fits, and only then signed.
pub fn signed_slot_delta(target: u64, reference: u64) -> (delta: i64)
    ensures
        delta == clamped_delta(target, reference),
        i64::MIN <= target - reference <= i64::MAX ==> delta == target - reference,
        target - reference > i64::MAX ==> delta == i64::MAX,
        target - reference < i64::MIN ==> delta == i64::MIN,
{
    let limit: u64 = i64::MAX as u64;
    if target >= reference {
        let gap: u64 = target - reference;
        if gap <= limit {
            gap as i64
        } else {
            i64::MAX
        }
    } else {
        let gap: u64 = reference - target;
        if gap <= limit {
            -(gap as i64)
        } else {
            i64::MIN
        }
    }
}

/// A target that is level with the reference or ahead of it never lags.
pub proof fn law_ahead_never_lags(target: u64, reference: u64, threshold: u64)
    requires
        target >= reference,
    ensures
        !lags(target, reference, threshold),
        clamped_delta(target, reference) >= 0,
{
}

/// No lag exceeds the largest threshold.
pub proof fn law_max_threshold_never_lags(target: u64, reference: u64)
    ensures
        !lags(target, reference, u64::MAX),
{
}

/// The displayed distance has the sign of the true one, and is the true one
/// wherever an `i64` can hold it; else it is the end of the range on that side.
pub proof fn law_delta_keeps_sign_and_value(target: u64, reference: u64)
    ensures
        clamped_delta(target, reference) < 0 <==> target < reference,
        clamped_delta(target, reference) > 0 <==> target > reference,
        i64::MIN <= target - reference <= i64::MAX ==> clamped_delta(target, reference) == target
            - reference,
        target - reference > i64::MAX ==> clamped_delta(target, reference) == i64::MAX,
        target - reference < i64::MIN ==> clamped_delta(target, reference) == i64::MIN,
{
}

/// For every threshold that an `i64` can hold, the flag agrees with the displayed
/// distance, clamped or not.
pub proof fn law_lag_agrees_with_delta(target: u64, reference: u64, threshold: u64)
    requires
        threshold <= i64::MAX,
    ensures
        lags(target, reference, threshold) <==> clamped_delta(target, reference) < -threshold,
{
}

/// A target that falls further behind, or a reference that claims a higher slot,
/// never clears the lag flag, and neither does a lower threshold.
pub proof fn law_lag_is_monotone(
    target: u64,
    reference: u64,
    threshold: u64,
    worse_target: u64,
    higher_reference: u64,
    tighter: u64,
)
    requires
        worse_target <= target,
        higher_reference >= reference,
        tighter <= threshold,
        lags(target, reference, threshold),
    ensures
        lags(worse_target, higher_reference, tighter),
{
}

/// Two probes with the same slots and the same response time of the target raise
/// the same flags: the reference's response time and the URLs play no part.
pub proof fn law_reference_rtt_is_context(one: ProbeResult, other: ProbeResult, cfg: Config)
    requires
        one.target.slot == other.target.slot,
        one.target.rtt_ms == other.target.rtt_ms,
        one.reference.slot == other.reference.slot,
    ensures
        analysis_of(one, cfg).is_slot_lagging == analysis_of(other, cfg).is_slot_lagging,
        analysis_of(one, cfg).is_rtt_high == analysis_of(other, cfg).is_rtt_high,
        analysis_of(one, cfg).needs_alert == analysis_of(other, cfg).needs_alert,
        analysis_of(one, cfg).slot_delta == analysis_of(other, cfg).slot_delta,
{
}

/// The status line reads `OK` exactly when no alert is due.
pub proof fn law_ok_means_no_alert(probe: ProbeResult, cfg: Config)
    ensures
        analysis_of(probe, cfg).status() == "OK"@ <==> !analysis_of(probe, cfg).needs_alert,
{
    let analysis = analysis_of(probe, cfg);
    reveal_strlit("OK");
    reveal_strlit("отставание слотов: ");
    reveal_strlit("высокий RTT: ");
    if analysis.needs_alert {
        assert("OK"@[0] == 'O');
        if analysis.is_slot_lagging {
            assert(analysis.status()[0] == 'о');
        } else {
            assert(analysis.status()[0] == 'в');
        }
    }
}

/// The lag flag is up exactly when the reference is ahead by more than the slot
/// threshold, and the response-time flag exactly when the target took longer than
/// the response-time threshold. Neither looks at what the other looks at, and an
/// alert is due exactly when one of the two conditions holds.
pub proof fn law_flags_are_the_thresholds(probe: ProbeResult, cfg: Config)
    ensures
        analysis_of(probe, cfg).is_slot_lagging <==> probe.reference.slot - probe.target.slot
            > cfg.slot_lag_threshold,
        analysis_of(probe, cfg).is_rtt_high <==> probe.target.rtt_ms > cfg.rtt_threshold_ms,
        analysis_of(probe, cfg).needs_alert <==> (probe.reference.slot - probe.target.slot
            > cfg.slot_lag_threshold || probe.target.rtt_ms > cfg.rtt_threshold_ms),
{
}

/// An analysis shows what was measured: both response times as they are, and the
/// slot of the target minus that of the reference, or the end of the `i64` range
/// that is nearest to it.
pub proof fn law_analysis_shows_what_was_measured(probe: ProbeResult, cfg: Config)
    ensures
        analysis_of(probe, cfg).target_rtt_ms == probe.target.rtt_ms,
        analysis_of(probe, cfg).reference_rtt_ms == probe.reference.rtt_ms,
        ({
            let distance = probe.target.slot - probe.reference.slot;
            let shown = analysis_of(probe, cfg).slot_delta;
            &&& i64::MIN <= distance <= i64::MAX ==> shown == distance
            &&& distance > i64::MAX ==> shown == i64::MAX
            &&& distance < i64::MIN ==> shown == i64::MIN
        }),
{
}

/// Shifting both slots by the same amount changes nothing: only the distance counts.
pub proof fn law_only_the_distance_counts(one: ProbeResult, other: ProbeResult, cfg: Config)
    requires
        one.reference.slot - one.target.slot == other.reference.slot - other.target.slot,
        one.target.rtt_ms == other.target.rtt_ms,
        one.reference.rtt_ms == other.reference.rtt_ms,
    ensures
        analysis_of(one, cfg) == analysis_of(other, cfg),
{
}

/// The status line, piece by piece: `OK` without an alert; else the lag with its
/// distance, then the response time of the target and behind it that of the
/// reference, each only where its flag is up.
pub proof fn law_status_line(analysis: Analysis)
    ensures
        ({
            let line = analysis.status();
            let lag = "отставание слотов: "@ + signed_decimal(analysis.slot_delta as int)
                + " (порог: нарушен)"@;
            let rtt = "высокий RTT: "@ + decimal(analysis.target_rtt_ms as nat) + "ms (ref: "@
                + decimal(analysis.reference_rtt_ms as nat) + "ms)"@;
            &&& !analysis.needs_alert ==> line == "OK"@
            &&& analysis.needs_alert && analysis.is_slot_lagging && !analysis.is_rtt_high ==> line
                == lag
            &&& analysis.needs_alert && !analysis.is_slot_lagging && analysis.is_rtt_high ==> line
                == rtt
            &&& analysis.needs_alert && analysis.is_slot_lagging && analysis.is_rtt_high ==> line
                == lag + ", "@ + rtt
            &&& analysis.needs_alert && !analysis.is_slot_lagging && !analysis.is_rtt_high
                ==> line.len() == 0
        }),
{
}

/// Two slow targets that differ only in the reference's response time have lines
/// that agree up to and with `(ref: `; from there on each line is its own
/// reference's time.
pub proof fn law_reference_time_stands_last(one: Analysis, other: Analysis)
    requires
        one.needs_alert && !one.is_slot_lagging && one.is_rtt_high,
        other.needs_alert && !other.is_slot_lagging && other.is_rtt_high,
        one.target_rtt_ms == other.target_rtt_ms,
    ensures
        ({
            let front = "высокий RTT: "@ + decimal(one.target_rtt_ms as nat) + "ms (ref: "@;
            &&& front.is_prefix_of(one.status())
            &&& front.is_prefix_of(other.status())
            &&& one.status().skip(front.len() as int) == decimal(one.reference_rtt_ms as nat)
                + "ms)"@
            &&& other.status().skip(front.len() as int) == decimal(other.reference_rtt_ms as nat)
                + "ms)"@
        }),
{
    let front = "высокий RTT: "@ + decimal(one.target_rtt_ms as nat) + "ms (ref: "@;
    assert(one.status().take(front.len() as int) =~= front);
    assert(other.status().take(front.len() as int) =~= front);
    assert(one.status().skip(front.len() as int) =~= decimal(one.reference_rtt_ms as nat)
        + "ms)"@);
    assert(other.status().skip(front.len() as int) =~= decimal(other.reference_rtt_ms as nat)
        + "ms)"@);
}

/// Both response times can be read back from the line of a slow target: the lines of
/// two of them are the same only if both times are.
pub proof fn law_line_tells_both_times(one: Analysis, other: Analysis)
    requires
        one.needs_alert && !one.is_slot_lagging && one.is_rtt_high,
        other.needs_alert && !other.is_slot_lagging && other.is_rtt_high,
    ensures
        one.status() == other.status() <==> one.target_rtt_ms == other.target_rtt_ms
            && one.reference_rtt_ms == other.reference_rtt_ms,
{
    if one.status() == other.status() {
        let start = "высокий RTT: "@;
        let mid = "ms (ref: "@;
        let end = "ms)"@;
        reveal_strlit("ms (ref: ");
        reveal_strlit("ms)");
        let after_one = mid + (decimal(one.reference_rtt_ms as nat) + end);
        let after_other = mid + (decimal(other.reference_rtt_ms as nat) + end);
        assert(one.status().skip(start.len() as int) =~= decimal(one.target_rtt_ms as nat)
            + after_one);
        assert(other.status().skip(start.len() as int) =~= decimal(other.target_rtt_ms as nat)
            + after_other);
        law_number_is_read_back(
            one.target_rtt_ms as nat,
            other.target_rtt_ms as nat,
            after_one,
            after_other,
        );
        assert(after_one.skip(mid.len() as int) =~= decimal(one.reference_rtt_ms as nat) + end);
        assert(after_other.skip(mid.len() as int) =~= decimal(other.reference_rtt_ms as nat)
            + end);
        law_number_is_read_back(
            one.reference_rtt_ms as nat,
            other.reference_rtt_ms as nat,
            end,
            end,
        );
    }
}

} // verus!
