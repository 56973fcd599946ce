use eqapo_gui::envelope::{PeakEnvelope, PEAK_HOLD_DURATION_MS};

#[test]
fn envelope_starts_silent() {
    let e = PeakEnvelope::new(500);
    assert_eq!(e.current_peak, 0);
    assert_eq!(e.peak_hold, 0);
    assert_eq!(e.peak_hold_time_ms, 500);
    assert_eq!(e.current_level(), 0);
}

#[test]
fn envelope_attacks_instantly_and_decays_geometrically() {
    let mut e = PeakEnvelope::new(0);
    e.update(1000, 10);
    assert_eq!(e.current_peak, 1000);
    e.update(4000, 20);
    assert_eq!(e.current_peak, 4000);
    e.update(100, 30);
    assert_eq!(e.current_peak, 3800);
    e.update(0, 40);
    assert_eq!(e.current_peak, 3610);
    e.update(3610, 50);
    // equal is not louder: still decays
    assert_eq!(e.current_peak, 3429);
}

#[test]
fn envelope_never_decays_below_zero() {
    let mut e = PeakEnvelope::new(0);
    e.update(3, 0);
    let mut prev = e.current_peak;
    for t in 1..20u64 {
        e.update(0, t);
        assert!(e.current_peak <= prev);
        prev = e.current_peak;
    }
    assert_eq!(e.current_peak, 0);
    e.update(0, 30);
    assert_eq!(e.current_peak, 0);
}

#[test]
fn envelope_hold_pins_then_collapses() {
    let mut e = PeakEnvelope::new(0);
    e.update(10_000, 100);
    assert_eq!(e.peak_hold, 10_000);
    assert_eq!(e.peak_hold_time_ms, 100);
    e.update(0, 600);
    assert_eq!(e.peak_hold, 10_000);
    e.update(0, 100 + PEAK_HOLD_DURATION_MS);
    // exactly the hold duration: still held
    assert_eq!(e.peak_hold, 10_000);
    e.update(0, 101 + PEAK_HOLD_DURATION_MS);
    assert_eq!(e.peak_hold, e.current_peak);
    assert_eq!(e.current_peak, 10_000 * 95 / 100 * 95 / 100 * 95 / 100);
}

#[test]
fn envelope_new_maximum_restarts_hold() {
    let mut e = PeakEnvelope::new(0);
    e.update(500, 0);
    e.update(900, 800);
    assert_eq!(e.peak_hold, 900);
    assert_eq!(e.peak_hold_time_ms, 800);
    e.update(100, 1500);
    assert_eq!(e.peak_hold, 900);
}

#[test]
fn envelope_clock_going_back_counts_as_no_time() {
    let mut e = PeakEnvelope::new(0);
    e.update(500, 5000);
    e.update(0, 10);
    assert_eq!(e.peak_hold, 500);
}
