use dulums::spring::{spring_mode, SpringMode};

#[test]
fn rigid_body_has_no_spring() {
    assert_eq!(spring_mode(false, false, false), SpringMode::Rigid);
    assert_eq!(spring_mode(false, true, true), SpringMode::Rigid);
}

#[test]
fn one_sided_spring_is_slack_only_when_compressed() {
    assert_eq!(spring_mode(true, true, true), SpringMode::Slack);
    assert_eq!(spring_mode(true, true, false), SpringMode::Restoring);
}

#[test]
fn two_sided_spring_always_restores() {
    assert_eq!(spring_mode(true, false, true), SpringMode::Restoring);
    assert_eq!(spring_mode(true, false, false), SpringMode::Restoring);
}

#[test]
fn spring_at_rest_length_gives_zero_force() {
    // at its rest length the spring is not compressed, so it restores with
    // -k * (l - l0), which is zero
    let (len, rest, stiffness) = (2.0f64, 2.0f64, 100.0f64);
    assert_eq!(spring_mode(true, true, len < rest), SpringMode::Restoring);
    assert_eq!(-stiffness * (len - rest), 0.0);
}
