use audisuals::window::TimeWindow;

// A window must have a non-degenerate past and future: half-size zero is
// rejected, never silently usable.
#[test]
fn zero_half_size_is_rejected() {
    assert!(TimeWindow::new(0).is_none());
    assert!(TimeWindow::new(1).is_some());
    assert!(TimeWindow::new(2).is_some());
}

#[test]
fn fresh_window_statistics_are_zero() {
    let w = TimeWindow::new(2).unwrap();
    assert_eq!(w.total_size(), 5);
    assert_eq!(w.avg(), (0, 5));
    assert_eq!(w.std_dev(), (0, 25));
    assert!(!w.current_significant());
}

// The running sum is the exact sum of the window contents: after five steps
// of a half-size-two window the initial zeros are gone and the sum is the
// sum of the five samples fed.
#[test]
fn running_sum_is_exact_mean_numerator() {
    let mut w = TimeWindow::new(2).unwrap();
    for s in [3, 1, 4, 1, 5] {
        w.step_forwards(s);
    }
    assert_eq!(w.avg(), (3 + 1 + 4 + 1 + 5, 5));
    w.step_forwards(9);
    // The oldest sample (3) left the window.
    assert_eq!(w.avg(), (1 + 4 + 1 + 5 + 9, 5));
}

// Feeding a constant drives the sum to k * total_size and the deviation
// total to exactly zero, after which no constant sample is significant.
#[test]
fn constant_input_saturates() {
    let mut w = TimeWindow::new(2).unwrap();
    for _ in 0..5 {
        w.step_forwards(7);
    }
    assert_eq!(w.avg(), (35, 5));
    assert_eq!(w.std_dev(), (0, 25));
    assert!(!w.significant(7));
    assert!(!w.current_significant());
    for _ in 0..100 {
        w.step_forwards(7);
        assert_eq!(w.avg(), (35, 5));
        assert_eq!(w.std_dev(), (0, 25));
        assert!(!w.significant(7));
        assert!(!w.current_significant());
    }
}

// A rising ramp then small samples: the exact running statistics, and the
// verdict on a would-be sample of 8 against the settled window.
#[test]
fn ramp_statistics() {
    let mut w = TimeWindow::new(2).unwrap();
    for s in [1, 2, 3, 4, 5, 6, 7, 8, 1, 2] {
        w.step_forwards(s);
    }
    // Window holds [6, 7, 8, 1, 2].
    assert_eq!(w.avg(), (24, 5));
    assert_eq!(w.std_dev(), (44, 25));
    // |8 - 24/5| = 3.2 against 4 * 44/25 = 7.04: not significant.
    assert!(!w.significant(8));
}

// The end-to-end window scenario: a single spike of 1000 among zeros, at
// half-size 2, with the exact sum, deviation total and significance flag
// after every step.
#[test]
fn spike_scenario_exact_statistics() {
    let mut w = TimeWindow::new(2).unwrap();
    let samples = [0, 0, 0, 0, 0, 1000, 0, 0, 0, 0, 0];
    let expected_sum = [0, 0, 0, 0, 0, 1000, 1000, 1000, 1000, 1000, 0];
    let expected_dev = [0, 0, 0, 0, 0, 4000, 4000, 4000, 4000, 4000, 0];
    let expected_sig = [
        false, false, false, false, false, false, false, true, false, false, false,
    ];
    for i in 0..samples.len() {
        w.step_forwards(samples[i]);
        assert_eq!(w.avg(), (expected_sum[i], 5), "sum after step {}", i + 1);
        assert_eq!(w.std_dev(), (expected_dev[i], 25), "dev after step {}", i + 1);
        assert_eq!(
            w.current_significant(),
            expected_sig[i],
            "significance after step {}",
            i + 1
        );
    }
    // Once the spike has left, the window is all zeros again and nothing is
    // significant.
    assert!(!w.significant(0));
    // But the spike value itself, against a quiet window, would be.
    assert!(w.significant(1000));
}
