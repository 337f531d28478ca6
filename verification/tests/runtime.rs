use noperson::runtime::{
    full_predecode_allowed, take_effective_request, CancellationEpoch, PredecodeMode,
    FULL_PREDECODE_MIN_FREE_BYTES,
};
use std::collections::BTreeMap;

#[test]
fn playback_starts_from_latest_marker_at_or_before_seek_frame() {
    let mut markers = BTreeMap::from([(10, "ten"), (20, "twenty"), (30, "thirty")]);
    assert_eq!(take_effective_request("base", &mut markers, 25), "twenty");
    assert_eq!(markers, BTreeMap::from([(30, "thirty")]));
}

#[test]
fn playback_uses_base_before_first_marker() {
    let mut markers = BTreeMap::from([(10, "ten")]);
    assert_eq!(take_effective_request("base", &mut markers, 4), "base");
    assert_eq!(markers, BTreeMap::from([(10, "ten")]));
}

#[test]
fn cancellation_epoch_never_revives_an_older_job() {
    let mut cancellation = CancellationEpoch::default();
    let running = cancellation.capture();
    assert!(!running.is_cancelled(&cancellation));

    cancellation.cancel();
    assert!(running.is_cancelled(&cancellation));
    assert!(running.ensure_active(&cancellation, "running job").is_err());

    let queued_after_cancel = cancellation.capture();
    assert!(!queued_after_cancel.is_cancelled(&cancellation));
    assert!(queued_after_cancel.ensure_active(&cancellation, "new job").is_ok());
    assert!(running.is_cancelled(&cancellation));
}

#[test]
fn full_predecode_is_gated_by_sixteen_gib_free() {
    let below = FULL_PREDECODE_MIN_FREE_BYTES - 1;
    assert!(
        full_predecode_allowed(PredecodeMode::Auto, below, 1).is_ok_and(|use_full| !use_full)
    );
    assert!(full_predecode_allowed(PredecodeMode::Full, below, 1).is_err());
}

#[test]
fn full_predecode_keeps_two_gib_headroom() {
    let free = 20 * 1024 * 1024 * 1024;
    assert!(full_predecode_allowed(PredecodeMode::Full, free, 18 * 1024 * 1024 * 1024).is_ok());
    assert!(full_predecode_allowed(PredecodeMode::Full, free, 19 * 1024 * 1024 * 1024).is_err());
}
