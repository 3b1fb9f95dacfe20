use audisuals::processor::AudioProcessor;
use audisuals::processor::EmitOutcome;
use audisuals::processor::half_size_for_span_ms;
use audisuals::processor::DEFAULT_CADENCE;
use audisuals::processor::DEFAULT_SAMPLE_RATE;

#[test]
fn default_configuration_values() {
    assert_eq!(DEFAULT_CADENCE, 400);
    assert_eq!(DEFAULT_SAMPLE_RATE, 44_100);
    // A quarter-second span at the default sample rate.
    assert_eq!(half_size_for_span_ms(250, DEFAULT_SAMPLE_RATE), 11_025);
    assert_eq!(half_size_for_span_ms(0, DEFAULT_SAMPLE_RATE), 0);
    // Rounded to the nearest whole sample: 44.1 rounds down, 1.5 rounds up.
    assert_eq!(half_size_for_span_ms(1, 44_100), 44);
    assert_eq!(half_size_for_span_ms(1, 1_500), 2);
}

#[test]
fn zero_half_size_processor_is_rejected() {
    assert!(AudioProcessor::new(0, 1000, 400).is_none());
    assert!(AudioProcessor::new(2, 1000, 400).is_some());
}

// Cadence: over 1000 samples with cadence 400, emissions fall on sample
// indices 0, 400 and 800: exactly three.
#[test]
fn emission_count_over_thousand_samples() {
    let mut p = AudioProcessor::new(2, 1000, 400).unwrap();
    let mut emitted = 0;
    let mut emitted_at = Vec::new();
    for i in 0..1000u64 {
        match p.process_sample(0, i * 1_000_000, Some(0)) {
            EmitOutcome::Emit { .. } => {
                emitted += 1;
                emitted_at.push(i);
            }
            EmitOutcome::Skipped => panic!("nothing should be skipped here"),
            EmitOutcome::NotDue => {}
        }
    }
    assert_eq!(emitted, 3);
    assert_eq!(emitted_at, vec![0, 400, 800]);
}

// Latch: a significant sample strictly between two emission boundaries is
// remembered, and the next emission reports an impulse taken from the raw
// sample at the boundary.
#[test]
fn latched_impulse_is_reported_at_next_boundary() {
    let mut p = AudioProcessor::new(2, 1000, 10).unwrap();
    // Sample stream: quiet, a spike of 1000 at index 5 (it becomes the
    // window's present sample, and significant, at index 7), then quiet
    // again, with a small nonzero sample at the boundary itself.
    let samples = [0, 0, 0, 0, 0, 1000, 0, 0, 0, 0, 1];
    let mut outcomes = Vec::new();
    for (i, &x) in samples.iter().enumerate() {
        outcomes.push(p.process_sample(x, i as u64 * 1_000_000, Some(0)));
    }
    match outcomes[0] {
        EmitOutcome::Emit { delay_ns, update } => {
            // Nothing significant yet: impulse zero, level zero.
            assert_eq!(delay_ns, 0);
            assert_eq!(update.time_ns, 0);
            assert_eq!(update.impulse_numer, 0);
            assert_eq!(update.impulse_denom, 1000);
            assert_eq!(update.level_numer, 0);
            assert_eq!(update.level_denom, 25_000);
        }
        _ => panic!("sample 0 falls on a boundary"),
    }
    for i in 1..10 {
        assert!(matches!(outcomes[i], EmitOutcome::NotDue), "index {}", i);
    }
    match outcomes[10] {
        EmitOutcome::Emit { delay_ns, update } => {
            // The spike latched at index 7 is reported here, from the raw
            // boundary sample 1; the deviation total has settled to 4 after
            // the spike left the window.
            assert_eq!(delay_ns, 10_000_000);
            assert_eq!(update.time_ns, 10_000_000);
            assert_eq!(update.impulse_numer, 1);
            assert_eq!(update.impulse_denom, 1000);
            assert_eq!(update.level_numer, 20);
            assert_eq!(update.level_denom, 25_000);
        }
        _ => panic!("sample 10 falls on a boundary"),
    }
}

// Latch, quiet side: an emission with no intervening significant sample
// reports an impulse of exactly zero.
#[test]
fn quiet_boundaries_report_zero_impulse() {
    let mut p = AudioProcessor::new(2, 1000, 5).unwrap();
    for i in 0..11u64 {
        match p.process_sample(0, i * 1_000_000, Some(0)) {
            EmitOutcome::Emit { update, .. } => {
                assert_eq!(update.impulse_numer, 0);
                assert_eq!(update.level_numer, 0);
            }
            EmitOutcome::Skipped => panic!("nothing should be skipped here"),
            EmitOutcome::NotDue => {}
        }
    }
}

// Pacing: a boundary whose stream time is already behind the elapsed wall
// clock, or whose wall clock could not be read, sends nothing.
#[test]
fn late_or_clockless_boundaries_are_skipped() {
    let mut p = AudioProcessor::new(2, 1000, 1).unwrap();
    // Stream time behind the wall clock: skipped.
    assert!(matches!(
        p.process_sample(0, 3, Some(5)),
        EmitOutcome::Skipped
    ));
    // Wall clock unavailable: skipped.
    assert!(matches!(p.process_sample(0, 4, None), EmitOutcome::Skipped));
    // Stream time exactly reached: emitted without waiting.
    match p.process_sample(0, 5, Some(5)) {
        EmitOutcome::Emit { delay_ns, .. } => assert_eq!(delay_ns, 0),
        _ => panic!("an on-time boundary emits"),
    }
    // Stream time still ahead: emitted after the difference.
    match p.process_sample(0, 9, Some(2)) {
        EmitOutcome::Emit { delay_ns, .. } => assert_eq!(delay_ns, 7),
        _ => panic!("an early boundary emits after a delay"),
    }
}

// Pacing skip reduces the packet count against an otherwise identical run.
#[test]
fn skipped_run_emits_fewer_packets() {
    let mut on_time = AudioProcessor::new(2, 1000, 1).unwrap();
    let mut behind = AudioProcessor::new(2, 1000, 1).unwrap();
    let mut on_time_count = 0;
    let mut behind_count = 0;
    for i in 0..50u64 {
        if matches!(
            on_time.process_sample(7, i, Some(0)),
            EmitOutcome::Emit { .. }
        ) {
            on_time_count += 1;
        }
        if matches!(
            behind.process_sample(7, i, Some(1_000_000)),
            EmitOutcome::Emit { .. }
        ) {
            behind_count += 1;
        }
    }
    assert_eq!(on_time_count, 50);
    assert_eq!(behind_count, 0);
}
