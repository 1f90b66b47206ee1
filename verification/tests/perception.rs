use arm_backend::messages::RequestAction;
use arm_backend::perception::{
    apply_perception_settings, has_calibration, persists, reset_target, scene_preconditions, PerceptionError,
    PerceptionSettings,
};

#[test]
fn scenes_need_calibration_and_a_frame() {
    let message = |r: Result<(), PerceptionError>| r.err().unwrap().message();
    assert_eq!(message(scene_preconditions(true, true, true)), "相机外参标定进行中，请在标定结束后运行感知");
    assert_eq!(message(scene_preconditions(false, false, true)), "当前相机尚未配置外参");
    assert_eq!(message(scene_preconditions(false, true, false)), "尚未收到相机帧");
    assert!(scene_preconditions(false, true, true).is_ok());
    let saved = vec!["cam-a".to_owned()];
    let presets = vec!["simulation:pick-place-scene".to_owned()];
    assert!(has_calibration(Some("cam-a"), &saved, &presets));
    assert!(has_calibration(Some("simulation:pick-place-scene"), &saved, &presets));
    assert!(!has_calibration(Some("cam-b"), &saved, &presets));
    assert!(!has_calibration(None, &saved, &presets));
}

#[test]
fn resets_clear_the_named_or_configured_camera() {
    assert_eq!(reset_target(Some("a"), Some("b")).ok().unwrap(), "a");
    assert_eq!(reset_target(None, Some("b")).ok().unwrap(), "b");
    assert_eq!(reset_target(None, None).err().unwrap().message(), "请选择要重置的深度相机");
    assert!(persists(RequestAction::Reset) && persists(RequestAction::Apply));
    assert!(!persists(RequestAction::Refresh) && !persists(RequestAction::Snapshot));
}

#[test]
fn perception_settings_follow_the_request() {
    let current = || PerceptionSettings { enabled: false, classes: vec!["cube".into()], placement_labels: vec![] };
    let next = apply_perception_settings(current(), RequestAction::Apply, None, Some(vec!["bin".into()])).ok().unwrap();
    assert!(next.enabled);
    assert_eq!(next.classes, ["cube"]);
    assert_eq!(next.placement_labels, ["bin"]);
    let off = apply_perception_settings(next, RequestAction::Disconnect, None, None).ok().unwrap();
    assert!(!off.enabled);
    let refused = apply_perception_settings(current(), RequestAction::Select, None, None).err().unwrap();
    assert_eq!(refused.message(), "perception request action Select is not supported");
}
