use sentinel::analysis::{analyze, signed_slot_delta, Analysis};
use sentinel::config::Config;
use sentinel::metrics::{NodeMetrics, ProbeResult};
use std::time::Duration;

/// Settings with the given thresholds; the rest is not looked at.
fn make_config(slot_lag_threshold: u64, rtt_threshold_ms: u64) -> Config {
    Config {
        target_rpc_url: "http://localhost:8899".to_string(),
        reference_rpc_url: "https://api.mainnet-beta.solana.com".to_string(),
        poll_interval: Duration::from_secs(10),
        slot_lag_threshold,
        rtt_threshold_ms,
        alert_cooldown: Duration::from_secs(300),
        llm_api_key: "test-key".to_string(),
        llm_model: "mistral-small-latest".to_string(),
        llm_base_url: "https://api.mistral.ai/v1".to_string(),
        telegram_bot_token: "test-token".to_string(),
        telegram_chat_id: "test-chat".to_string(),
    }
}

fn make_probe(target_slot: u64, target_rtt_ms: u64, reference_slot: u64) -> ProbeResult {
    ProbeResult {
        target: NodeMetrics {
            slot: target_slot,
            rtt_ms: target_rtt_ms,
            node_url: "http://localhost:8899".to_string(),
        },
        reference: NodeMetrics {
            slot: reference_slot,
            rtt_ms: 50,
            node_url: "https://api.mainnet-beta.solana.com".to_string(),
        },
    }
}

#[test]
fn test_no_alert_when_everything_is_fine() {
    let cfg = make_config(5, 500);
    let probe = make_probe(100_000 - 3, 200, 100_000);
    let analysis = analyze(&probe, &cfg);

    assert_eq!(analysis.slot_delta, -3);
    assert!(!analysis.is_slot_lagging);
    assert!(!analysis.is_rtt_high);
    assert!(!analysis.needs_alert);
}

#[test]
fn test_alert_when_slot_lagging() {
    let cfg = make_config(5, 500);
    let probe = make_probe(100_000 - 10, 200, 100_000);
    let analysis = analyze(&probe, &cfg);

    assert_eq!(analysis.slot_delta, -10);
    assert!(analysis.is_slot_lagging);
    assert!(!analysis.is_rtt_high);
    assert!(analysis.needs_alert);
}

#[test]
fn test_alert_when_rtt_high() {
    let cfg = make_config(5, 500);
    let probe = make_probe(100_000, 800, 100_000);
    let analysis = analyze(&probe, &cfg);

    assert!(!analysis.is_slot_lagging);
    assert!(analysis.is_rtt_high);
    assert!(analysis.needs_alert);
}

#[test]
fn test_alert_when_both_conditions_violated() {
    let cfg = make_config(5, 500);
    let probe = make_probe(100_000 - 20, 1200, 100_000);
    let analysis = analyze(&probe, &cfg);

    assert!(analysis.is_slot_lagging);
    assert!(analysis.is_rtt_high);
    assert!(analysis.needs_alert);
}

#[test]
fn test_no_alert_at_exact_threshold() {
    // Both comparisons are strict.
    let cfg = make_config(5, 500);
    let probe = make_probe(100_000 - 5, 500, 100_000);
    let analysis = analyze(&probe, &cfg);

    assert!(!analysis.is_slot_lagging);
    assert!(!analysis.is_rtt_high);
    assert!(!analysis.needs_alert);
}

#[test]
fn test_target_ahead_of_reference() {
    let cfg = make_config(5, 500);
    let probe = make_probe(100_010, 100, 100_000);
    let analysis = analyze(&probe, &cfg);

    assert_eq!(analysis.slot_delta, 10);
    assert!(!analysis.is_slot_lagging);
    assert!(!analysis.needs_alert);
}

#[test]
fn test_signed_slot_delta_saturates_instead_of_wrapping() {
    assert_eq!(signed_slot_delta(100, 100), 0);
    assert_eq!(signed_slot_delta(110, 100), 10);
    assert_eq!(signed_slot_delta(90, 100), -10);

    assert_eq!(signed_slot_delta(u64::MAX, 0), i64::MAX);
    assert_eq!(signed_slot_delta(0, u64::MAX), i64::MIN);
}

#[test]
fn test_hostile_reference_slot_does_not_suppress_alert() {
    let cfg = make_config(5, 500);
    let probe = make_probe(100, 200, u64::MAX);
    let analysis = analyze(&probe, &cfg);

    assert_eq!(analysis.slot_delta, i64::MIN);
    assert!(analysis.is_slot_lagging);
    assert!(analysis.needs_alert);
}

#[test]
fn test_hostile_target_slot_does_not_trigger_false_alert() {
    let cfg = make_config(5, 500);
    let probe = make_probe(u64::MAX, 200, 100);
    let analysis = analyze(&probe, &cfg);

    assert_eq!(analysis.slot_delta, i64::MAX);
    assert!(!analysis.is_slot_lagging);
    assert!(!analysis.needs_alert);
}

#[test]
fn test_lag_decision_survives_every_slot_extreme() {
    let cfg = make_config(5, 500);
    let extremes = [0, 1, i64::MAX as u64, i64::MAX as u64 + 1, u64::MAX];

    for target in extremes {
        for reference in extremes {
            let analysis = analyze(&make_probe(target, 200, reference), &cfg);
            let expected = reference.saturating_sub(target) > cfg.slot_lag_threshold;
            assert_eq!(
                analysis.is_slot_lagging, expected,
                "target={target} reference={reference}"
            );
        }
    }
}

#[test]
fn test_max_threshold_never_reports_lagging() {
    let cfg = make_config(u64::MAX, 500);
    let probe = make_probe(0, 200, u64::MAX);
    let analysis = analyze(&probe, &cfg);

    assert!(!analysis.is_slot_lagging);
}

#[test]
fn test_status_text_ok() {
    let cfg = make_config(5, 500);
    let probe = make_probe(100_000, 100, 100_000);
    let analysis = analyze(&probe, &cfg);
    assert_eq!(analysis.status_text(), "OK");
}

#[test]
fn test_status_text_lagging() {
    let cfg = make_config(5, 500);
    let probe = make_probe(99_990, 100, 100_000);
    let analysis = analyze(&probe, &cfg);
    assert!(analysis.status_text().contains("отставание слотов"));
}

#[test]
fn status_text_spells_out_each_problem() {
    let cfg = make_config(5, 500);

    let lagging = analyze(&make_probe(99_990, 100, 100_000), &cfg);
    assert_eq!(lagging.status_text(), "отставание слотов: -10 (порог: нарушен)");

    let slow = analyze(&make_probe(100_000, 800, 100_000), &cfg);
    assert_eq!(slow.status_text(), "высокий RTT: 800ms (ref: 50ms)");

    let both = analyze(&make_probe(0, u64::MAX, u64::MAX), &cfg);
    assert_eq!(
        both.status_text(),
        format!(
            "отставание слотов: {} (порог: нарушен), высокий RTT: {}ms (ref: 50ms)",
            i64::MIN,
            u64::MAX
        )
    );
}

#[test]
fn status_text_is_empty_for_an_alert_without_a_reason() {
    let odd = Analysis {
        slot_delta: 1,
        target_rtt_ms: 2,
        reference_rtt_ms: 3,
        is_slot_lagging: false,
        is_rtt_high: false,
        needs_alert: true,
    };
    assert_eq!(odd.status_text(), "");
}

#[test]
fn analysis_carries_the_measured_times() {
    let analysis = analyze(&make_probe(7, 123, 7), &make_config(0, 1000)).clone();
    assert_eq!(analysis.target_rtt_ms, 123);
    assert_eq!(analysis.reference_rtt_ms, 50);
}

#[test]
fn lag_flag_agrees_with_the_displayed_distance() {
    let extremes = [0, 1, 6, i64::MAX as u64, i64::MAX as u64 + 1, u64::MAX];
    for threshold in [0, 5, i64::MAX as u64] {
        for target in extremes {
            for reference in extremes {
                let analysis =
                    analyze(&make_probe(target, 0, reference), &make_config(threshold, 0));
                let behind = (analysis.slot_delta as i128) < -(threshold as i128);
                assert_eq!(analysis.is_slot_lagging, behind);
                assert_eq!(analysis.slot_delta < 0, target < reference);
                assert_eq!(analysis.slot_delta > 0, target > reference);
            }
        }
    }
}

#[test]
fn lag_flag_survives_a_worse_probe_and_a_tighter_threshold() {
    assert!(analyze(&make_probe(90, 0, 100), &make_config(9, 0)).is_slot_lagging);
    assert!(analyze(&make_probe(89, 0, 200), &make_config(3, 0)).is_slot_lagging);
}

#[test]
fn reference_response_time_plays_no_part() {
    let cfg = make_config(5, 500);
    let probe = make_probe(100_000, 200, 100_000);
    let mut other = probe.clone();
    other.reference.rtt_ms = u64::MAX;
    assert!(!analyze(&probe, &cfg).needs_alert);
    assert!(!analyze(&other, &cfg).needs_alert);
}
