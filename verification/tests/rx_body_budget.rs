use veil::session::frame::MAX_FRAME_BODY;
use veil::session::rx_body_budget::{
    clamp_to_one_frame, configured_budget, reservation, DEFAULT_RX_BODY_BUDGET_BYTES,
    RX_BODY_BUDGET_ENV,
};

#[test]
fn a_budget_below_one_frame_is_raised_to_one_frame() {
    assert_eq!(clamp_to_one_frame(1024), MAX_FRAME_BODY as usize);
    assert_eq!(clamp_to_one_frame(0), MAX_FRAME_BODY as usize);
    assert_eq!(
        clamp_to_one_frame(MAX_FRAME_BODY as usize - 1),
        MAX_FRAME_BODY as usize,
        "one byte short is still short"
    );
}

#[test]
fn a_budget_at_or_above_one_frame_is_left_alone() {
    assert_eq!(clamp_to_one_frame(MAX_FRAME_BODY as usize), MAX_FRAME_BODY as usize);
    assert_eq!(
        clamp_to_one_frame(DEFAULT_RX_BODY_BUDGET_BYTES),
        DEFAULT_RX_BODY_BUDGET_BYTES
    );
}

#[test]
fn the_default_clears_the_floor_on_its_own() {
    assert!(DEFAULT_RX_BODY_BUDGET_BYTES >= MAX_FRAME_BODY as usize);
}

#[test]
fn a_largest_possible_body_is_admissible() {
    assert!(reservation(MAX_FRAME_BODY as usize) as usize <= configured_budget(None));
    assert!(reservation(MAX_FRAME_BODY as usize) as usize <= configured_budget(Some("1")));
}

#[test]
fn the_environment_decides_within_the_floor() {
    assert_eq!(RX_BODY_BUDGET_ENV, "VEIL_RX_BODY_BUDGET");
    assert_eq!(configured_budget(None), DEFAULT_RX_BODY_BUDGET_BYTES);
    assert_eq!(configured_budget(Some("33554432")), 33_554_432);
    assert_eq!(configured_budget(Some("12")), MAX_FRAME_BODY as usize);
    assert_eq!(configured_budget(Some("plenty")), DEFAULT_RX_BODY_BUDGET_BYTES);
}
