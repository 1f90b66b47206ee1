use arm_backend::messages::RequestAction;
use arm_backend::motion_request::{validate_motion_request, MotionOption, MotionRequestError, TargetKey};

fn option(key: &str, finite: bool) -> MotionOption {
    MotionOption { key: key.into(), finite }
}

fn target(key: &str) -> TargetKey {
    TargetKey { key: key.into(), finite: true }
}

fn model() -> Vec<String> {
    vec!["joint1".into(), "joint2".into(), "joint3".into()]
}

#[test]
fn motion_requests_are_checked_in_order() {
    let err = |r: Result<_, MotionRequestError>| r.err().unwrap().message();
    assert_eq!(
        err(validate_motion_request(RequestAction::Cancel, true, &vec![], &vec![], &vec![], &model(), "gripper")),
        "unsupported motion action Cancel"
    );
    assert_eq!(
        err(validate_motion_request(RequestAction::Apply, false, &vec![], &vec![], &vec![], &model(), "gripper")),
        "model revision mismatch or no ArmState"
    );
    assert_eq!(
        err(validate_motion_request(RequestAction::Apply,
            true,
            &vec![option("speed", true), option("velocity_scaling", true), option("zeta", true)],
            &vec![],
            &vec![],
            &model(),
            "gripper"
        )),
        "unknown motion options [\"speed\", \"zeta\"]"
    );
    assert_eq!(
        err(validate_motion_request(RequestAction::Apply, true, &vec![option("velocity_scaling", false)], &vec![], &vec![], &model(), "gripper")),
        "motion option values must be finite numbers"
    );
    assert_eq!(
        err(validate_motion_request(RequestAction::Apply, true, &vec![], &vec![target("joint1"), target("joint1")], &vec![], &model(), "gripper")),
        "invalid joint target joint1"
    );
    assert_eq!(
        err(validate_motion_request(RequestAction::Apply, true, &vec![], &vec![target("joint9")], &vec![], &model(), "gripper")),
        "invalid joint target joint9"
    );
    assert_eq!(
        err(validate_motion_request(RequestAction::Apply, true, &vec![], &vec![], &vec![target("wrist")], &model(), "gripper")),
        "invalid actuator target wrist"
    );
}

#[test]
fn accepted_requests_say_which_entry_sets_each_joint() {
    let targets = validate_motion_request(RequestAction::Apply,
        true,
        &vec![option("acceleration_scaling", true)],
        &vec![target("joint3"), target("joint1")],
        &vec![target("gripper")],
        &model(),
        "gripper",
    )
    .ok()
    .unwrap();
    assert_eq!(targets.joint_sources, vec![Some(1), None, Some(0)]);
    assert_eq!(targets.actuator_source, Some(0));
}
