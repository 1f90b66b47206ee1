use arm_backend::messages::{RequestAction, RequestState};
use arm_backend::scene_task::{
    instance_grasp_count, kept_after_scene_clear, mask_asset_key, missing_asset_message, SceneObject,
};
use arm_backend::scene_task::{
    apply_settings, enable_for_start, validate_stage_input, visual_prompt_active, Prompt, SceneSettings, SceneSummary, SceneTasks,
    SettingsChange, SettingsError, StageError, StageOutput,
};

fn summary(sequence: u64, ids: &[&str]) -> SceneSummary {
    SceneSummary { sequence, object_ids: ids.iter().map(|s| (*s).into()).collect() }
}

fn ready_tasks() -> SceneTasks {
    let mut tasks = SceneTasks::new();
    tasks.observe_camera_state(true, Some("fixture"), 1);
    assert!(tasks.accept_frame("fixture", 7));
    tasks
}

#[test]
fn stages_reject_stale_or_unselected_inputs() {
    assert!(validate_stage_input(RequestAction::Refresh, None, None, None, None).is_ok());
    assert!(validate_stage_input(RequestAction::Reconstruct, Some(10), None, None, None) == Err(StageError::NeedSegmentation));
    assert!(
        validate_stage_input(RequestAction::Reconstruct, Some(9), None, Some(10), None)
            == Err(StageError::SegmentationChanged)
    );
    assert!(validate_stage_input(RequestAction::Reconstruct, Some(10), None, Some(10), None).is_ok());
    let scene = summary(11, &["frame-0"]);
    assert!(
        validate_stage_input(RequestAction::GenerateGrasps, Some(10), Some("frame-0"), Some(10), Some(&scene))
            == Err(StageError::SceneChanged)
    );
    assert!(
        validate_stage_input(RequestAction::GenerateGrasps, Some(11), Some("other"), Some(10), Some(&scene))
            == Err(StageError::NoTarget)
    );
    assert!(validate_stage_input(RequestAction::GenerateGrasps, Some(11), None, Some(10), Some(&scene)) == Err(StageError::NoTarget));
    assert!(validate_stage_input(RequestAction::GenerateGrasps, Some(11), Some("frame-0"), None, Some(&scene)).is_ok());
    assert!(validate_stage_input(RequestAction::GenerateGrasps, Some(11), Some("frame-0"), None, None) == Err(StageError::NeedReconstruction));
    assert!(validate_stage_input(RequestAction::Apply, None, None, None, None) == Err(StageError::NotAStage));
    assert_eq!(StageError::SceneChanged.message(), "三维场景已改变，请使用当前场景序号");
}

#[test]
fn one_task_runs_at_a_time_and_segmentation_needs_a_frame() {
    let mut empty = SceneTasks::new();
    assert!(empty.check_start(RequestAction::Refresh, None, None) == Err(StageError::NoFrame));
    assert_eq!(StageError::NoFrame.message(), "尚未收到相机帧");
    let mut tasks = ready_tasks();
    assert!(tasks.check_start(RequestAction::Refresh, None, None).is_ok());
    let ticket = tasks.begin("seg", RequestAction::Refresh);
    assert_eq!(ticket.input_sequence + 1, ticket.output_sequence);
    assert!(tasks.task_state == RequestState::Executing);
    assert!(tasks.check_start(RequestAction::Refresh, None, None) == Err(StageError::Busy));
    // A refused request does not disturb the running task.
    tasks.refuse("感知任务正在执行".into());
    assert!(tasks.task_state == RequestState::Executing);
    assert!(tasks.finish(ticket.input_sequence, Ok(StageOutput::Segmented(ticket.output_sequence))).is_none());
    assert!(tasks.task_state == RequestState::Succeeded);
    assert_eq!(tasks.segmented, Some(ticket.output_sequence));
    assert!(tasks.task_request_id.is_none());
    empty.refuse("请先运行分割".into());
    assert!(empty.task_state == RequestState::Failed);
}

#[test]
fn a_result_computed_on_changed_inputs_is_discarded() {
    let mut tasks = ready_tasks();
    let ticket = tasks.begin("seg", RequestAction::Refresh);
    // The camera changed while segmenting.
    assert!(tasks.observe_camera_state(true, Some("other"), 1));
    assert!(tasks.task_state == RequestState::Executing);
    let error = tasks.finish(ticket.input_sequence, Ok(StageOutput::Segmented(ticket.output_sequence)));
    assert_eq!(error.as_deref(), Some("感知任务运行期间相机、标定、模型或配置已改变，已丢弃旧结果"));
    assert!(tasks.segmented.is_none());
    assert!(tasks.task_state == RequestState::Failed);
    assert_eq!(tasks.last_error, error);
}

#[test]
fn stages_build_on_each_other() {
    let mut tasks = ready_tasks();
    let seg = tasks.begin("seg", RequestAction::Refresh);
    tasks.finish(seg.input_sequence, Ok(StageOutput::Segmented(seg.output_sequence)));
    let current = tasks.segmented;
    assert!(tasks.check_start(RequestAction::Reconstruct, current, None).is_ok());
    let rec = tasks.begin("rec", RequestAction::Reconstruct);
    tasks.finish(rec.input_sequence, Ok(StageOutput::Reconstructed(summary(rec.output_sequence, &["frame-0"]))));
    assert_eq!(tasks.sequence, rec.output_sequence);
    assert!(tasks.check_start(RequestAction::GenerateGrasps, Some(tasks.sequence), Some("frame-0")).is_ok());
    let grasps = tasks.begin("grasp", RequestAction::GenerateGrasps);
    let error = tasks.finish(grasps.input_sequence, Err("grasp service failed".into()));
    assert_eq!(error.as_deref(), Some("grasp service failed"));
    assert!(tasks.task_state == RequestState::Failed);
    assert!(tasks.scene.is_some());
}

#[test]
fn frames_are_taken_only_from_the_streaming_camera_in_order() {
    let mut tasks = SceneTasks::new();
    assert!(!tasks.accept_frame("fixture", 1));
    assert!(tasks.observe_camera_state(true, Some("fixture"), 1));
    assert!(tasks.accept_frame("fixture", 5));
    assert!(!tasks.accept_frame("fixture", 5));
    assert!(!tasks.accept_frame("other", 6));
    assert!(!tasks.observe_camera_state(true, Some("fixture"), 1));
    assert!(tasks.observe_camera_state(true, Some("fixture"), 2));
    assert!(tasks.latest_frame.is_none());
    assert!(tasks.observe_camera_state(false, Some("fixture"), 2));
    assert!(tasks.source_id.is_none());
    let before = tasks.sequence;
    tasks.clear_scene();
    assert_eq!(tasks.sequence, before + 1);
}

fn settings() -> SceneSettings<&'static str, f64> {
    SceneSettings {
        config_version: 0,
        enabled: false,
        model: None,
        classes: vec!["cube".into()],
        prompt: Prompt::Visual("box"),
        placement_labels: vec![],
        grasp_collision_distance: 0.02,
    }
}

fn no_change() -> SettingsChange<&'static str, f64> {
    SettingsChange {
        model: None,
        classes: None,
        prompt: None,
        placement_labels: None,
        grasp_collision_distance: None,
        distance_valid: true,
    }
}

#[test]
fn applied_settings_follow_the_request() {
    let known = vec!["auto".to_owned(), "text".to_owned()];
    let mut change = no_change();
    change.classes = Some(vec!["bin".into()]);
    change.model = Some("text".into());
    let next = apply_settings(settings(), &known, RequestAction::Apply, change).ok().unwrap();
    assert!(next.enabled);
    assert_eq!(next.config_version, 1);
    assert_eq!(next.classes, vec!["bin".to_owned()]);
    assert!(matches!(next.prompt, Prompt::Text));
    assert_eq!(next.model.as_deref(), Some("text"));
    let mut unknown = no_change();
    unknown.model = Some("ghost".into());
    match apply_settings(settings(), &known, RequestAction::Apply, unknown) {
        Err(e @ SettingsError::UnknownModel(_)) => assert_eq!(e.message(), "未知分割模型 ghost"),
        _ => panic!(),
    }
    let mut far = no_change();
    far.grasp_collision_distance = Some(-1.0);
    far.distance_valid = false;
    match apply_settings(settings(), &known, RequestAction::Apply, far) {
        Err(e @ SettingsError::InvalidDistance) => assert_eq!(e.message(), "点云碰撞邻近距离必须是非负有限数值"),
        _ => panic!(),
    }
    let off = apply_settings(settings(), &known, RequestAction::Cancel, no_change()).ok().unwrap();
    assert!(!off.enabled && off.config_version == 1);
    let same = apply_settings(settings(), &known, RequestAction::Snapshot, no_change()).ok().unwrap();
    assert_eq!(same.config_version, 0);
    match apply_settings(settings(), &known, RequestAction::Connect, no_change()) {
        Err(e @ SettingsError::UnsupportedAction(_)) => assert_eq!(e.message(), "感知请求不支持动作 Connect"),
        _ => panic!(),
    }
}

#[test]
fn visual_prompts_apply_only_to_prompted_models() {
    let free = vec!["auto".to_owned()];
    assert!(visual_prompt_active(&Prompt::Visual(1), Some("text"), &free));
    assert!(!visual_prompt_active(&Prompt::Visual(1), Some("auto"), &free));
    assert!(visual_prompt_active(&Prompt::Visual(1), None, &free));
    assert!(!visual_prompt_active::<u8>(&Prompt::Text, Some("text"), &free));
}

#[test]
fn scene_assets_and_instance_summaries() {
    assert!(!kept_after_scene_clear("overlay.png"));
    assert!(!kept_after_scene_clear("mask-0.png"));
    assert!(kept_after_scene_clear("color.png"));
    assert!(kept_after_scene_clear("depth.png"));
    assert_eq!(mask_asset_key(12), "mask-12.png");
    assert_eq!(missing_asset_message("mask-3.png"), "感知资源 mask-3.png 尚未生成");
    let objects = vec![
        SceneObject { object_id: "frame-0".into(), grasp_candidate_count: 4 },
        SceneObject { object_id: "frame-0".into(), grasp_candidate_count: 9 },
    ];
    assert_eq!(instance_grasp_count(&objects, "frame-0"), 4);
    assert_eq!(instance_grasp_count(&objects, "frame-1"), 0);
}

#[test]
fn starting_a_stage_enables_a_disabled_node_once() {
    let mut s = settings();
    s.config_version = 4;
    assert!(enable_for_start(&mut s));
    assert!(s.enabled);
    assert_eq!(s.config_version, 5);
    assert_eq!(s.classes, ["cube"]);
    assert!(!enable_for_start(&mut s));
    assert_eq!(s.config_version, 5);
}
