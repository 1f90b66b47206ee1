use arm_backend::controller_input::{
    pose_selection, publication, source_relevant, ListedSource, PoseSelectionError, PoseSourceSelection,
    Publication, SampleSeen, StreamDiagnostics,
};
use arm_backend::controller_input::{nolo_device_id, nolo_display_name, nolo_source_id};
use arm_backend::messages::RequestAction;
use arm_backend::controller_input::{
    action_type, config_schema_version, is_virtual_feedback, nolo_buttons, sdl_axes, sdl_buttons,
    sdl_feedback_capabilities, supports_pose_component, validate_bindings, ActionBinding, ActionType,
    BindingError, FeedbackBinding, PoseComponent, SourceCapabilities,
};
use arm_backend::controller_input::{simulation_config, InputConfig, SimulationComponents};
use std::collections::BTreeSet;

#[test]
fn declared_component_tables_cover_sdl3_and_named_nolo_inputs() {
    let sdl_axes = sdl_axes();
    let sdl_buttons = sdl_buttons();
    assert_eq!(sdl_axes.len(), 6);
    assert_eq!(sdl_buttons.len(), 26);
    assert_eq!(
        sdl_buttons.iter().map(|(_, path, _)| *path).collect::<BTreeSet<_>>().len(),
        sdl_buttons.len()
    );
    assert!(sdl_axes.iter().all(|(_, _, name)| !name.is_empty()));
    assert!(sdl_buttons.iter().all(|(_, _, name)| !name.is_empty()));
    assert!(sdl_buttons.iter().any(|(_, path, _)| *path == "button/misc6"));
    assert!(sdl_buttons.iter().any(|(_, path, _)| *path == "button/left_paddle2"));
    assert!(sdl_buttons.iter().any(|(_, path, _)| *path == "button/right_paddle2"));

    assert_eq!(nolo_buttons().iter().map(|(bit, _, _)| *bit).collect::<Vec<_>>(), [0, 1, 2, 3, 4, 5]);
    assert_eq!(
        nolo_buttons().iter().map(|(_, path, _)| *path).collect::<Vec<_>>(),
        [
            "button/touchpad",
            "button/trigger",
            "button/menu",
            "button/system",
            "button/grip",
            "button/touchpad_touch",
        ]
    );
}

fn capabilities(position: bool, orientation: bool) -> SourceCapabilities {
    SourceCapabilities { position_capable: position, orientation_capable: orientation }
}

#[test]
fn pose_source_candidates_follow_declared_capabilities() {
    let action_only_a = capabilities(false, false);
    let action_only_b = capabilities(false, false);
    let orientation_only = capabilities(false, true);
    let full_pose = capabilities(true, true);

    assert!(!supports_pose_component(&action_only_a, PoseComponent::Position));
    assert!(!supports_pose_component(&action_only_a, PoseComponent::Orientation));
    assert!(!supports_pose_component(&action_only_b, PoseComponent::Orientation));
    assert!(!supports_pose_component(&orientation_only, PoseComponent::Position));
    assert!(supports_pose_component(&orientation_only, PoseComponent::Orientation));
    assert!(supports_pose_component(&full_pose, PoseComponent::Position));
    assert!(supports_pose_component(&full_pose, PoseComponent::Orientation));
}

#[test]
fn trigger_feedback_reports_two_independent_bindable_capabilities() {
    let capabilities = sdl_feedback_capabilities(true, false);
    assert_eq!(
        capabilities.iter().map(|capability| capability.path.as_str()).collect::<Vec<_>>(),
        ["feedback/trigger_left", "feedback/trigger_right"]
    );
    assert!(sdl_feedback_capabilities(false, false).is_empty());
}

#[test]
fn virtual_feedback_is_an_always_applicable_binding_target() {
    let binding = FeedbackBinding {
        action: "primary_tool".into(),
        source_id: "virtual-feedback".into(),
        capability_path: "feedback/virtual".into(),
    };
    assert!(is_virtual_feedback(&binding));
}

#[test]
fn rumble_is_a_feedback_capability_of_its_own() {
    let all = sdl_feedback_capabilities(true, true);
    assert_eq!(all.len(), 3);
    assert_eq!(all[2].path, "feedback/rumble");
    assert_eq!(all[2].localized_name.as_deref(), Some("手柄振动"));
    assert_eq!(all[0].localized_name.as_deref(), Some("左扳机力度反馈"));
}

fn binding(action: &str, action_type: ActionType, paths: &[&str]) -> ActionBinding {
    ActionBinding {
        action: action.into(),
        action_type,
        source_id: "fixture".into(),
        component_paths: paths.iter().map(|p| (*p).into()).collect(),
        invert: false,
    }
}

#[test]
fn bindings_must_name_known_actions_of_the_right_type() {
    assert!(validate_bindings(&vec![
        binding("start_stop", ActionType::Boolean, &["button/a", "button/b"]),
        binding("move_up_down", ActionType::Float, &["axis/left_y"]),
    ])
    .is_ok());
    let message = |bindings: Vec<ActionBinding>| validate_bindings(&bindings).err().unwrap().message();
    assert_eq!(message(vec![binding("fly", ActionType::Float, &[])]), "未知 Action fly");
    assert_eq!(message(vec![binding("primary_tool", ActionType::Boolean, &[])]), "Action primary_tool 类型不匹配");
    assert_eq!(
        message(vec![binding("start_stop", ActionType::Boolean, &["button/a"])]),
        "启动和停止控制必须绑定两个按钮"
    );
    assert!(matches!(
        validate_bindings(&vec![binding("fly", ActionType::Float, &[]), binding("x", ActionType::Float, &[])]),
        Err(BindingError::UnknownAction(a)) if a == "fly"
    ));
    assert!(action_type("horizontal_arc") == Some(ActionType::Float));
    assert!(action_type("emergency_stop") == Some(ActionType::Boolean));
    assert_eq!(config_schema_version(), 2);
}

#[test]
fn other_feedback_targets_are_not_virtual() {
    let binding = FeedbackBinding {
        action: "primary_tool".into(),
        source_id: "sdl".into(),
        capability_path: "feedback/virtual".into(),
    };
    assert!(!is_virtual_feedback(&binding));
}

#[test]
fn sequence_gaps_count_skipped_samples() {
    let mut diagnostics = StreamDiagnostics::new();
    diagnostics.record_sample(None, 4, 10, 11);
    diagnostics.record_sample(Some(4), 5, 20, 21);
    diagnostics.record_sample(Some(5), 9, 30, 31);
    diagnostics.record_sample(Some(9), 3, 40, 41);
    assert_eq!(diagnostics.received_frames, 4);
    assert_eq!(diagnostics.sequence_gaps, 3);
    assert_eq!(diagnostics.last_source_time_ns, Some(40));
    assert_eq!(diagnostics.last_received_time_ns, Some(41));
}

fn seen(sequence: u64, last: Option<u64>, relevant: bool, pose_source: bool) -> SampleSeen {
    SampleSeen { sequence, last_published: last, relevant, pose_source }
}

#[test]
fn ticks_publish_only_new_relevant_samples() {
    assert!(publication(&vec![seen(3, Some(3), true, true)], false) == Publication::Nothing);
    assert!(publication(&vec![seen(4, Some(3), false, false)], false) == Publication::Nothing);
    assert!(publication(&vec![seen(4, Some(3), true, false)], false) == Publication::Control);
    assert!(publication(&vec![seen(4, None, true, true)], false) == Publication::PoseAndControl);
    assert!(publication(&vec![seen(3, Some(3), true, true)], true) == Publication::PoseAndControl);
    assert!(publication(&vec![], false) == Publication::Nothing);
}

#[test]
fn pose_sources_must_exist_and_provide_the_component() {
    let sources = vec![ListedSource {
        source_id: "s".into(),
        driver_id: "d".into(),
        device_id: "dev".into(),
        position_capable: false,
        orientation_capable: true,
        active: true,
    }];
    let selected =
        pose_selection(&sources, RequestAction::Select, "s", "d", "dev", PoseComponent::Orientation).ok().unwrap();
    assert_eq!(selected.unwrap().source_id, "s");
    let refused = pose_selection(&sources, RequestAction::Select, "s", "d", "dev", PoseComponent::Position);
    assert!(matches!(refused, Err(PoseSelectionError::Unavailable)));
    assert_eq!(PoseSelectionError::Unavailable.message(), "选择的输入 source 不存在或不提供对应位姿能力");
    assert!(matches!(
        pose_selection(&sources, RequestAction::Unselect, "x", "y", "z", PoseComponent::Position),
        Ok(None)
    ));
    let other = pose_selection(&sources, RequestAction::Apply, "s", "d", "dev", PoseComponent::Position);
    assert_eq!(other.err().unwrap().message(), "input 节点不处理 Apply pose source 请求");
}

#[test]
fn relevant_sources_are_selected_or_bound() {
    let position = PoseSourceSelection { driver_id: "d".into(), device_id: "v".into(), source_id: "pos".into() };
    let bindings = vec![binding("primary_tool", ActionType::Float, &["axis/trigger"])];
    assert!(source_relevant("pos", Some(&position), None, &vec![]));
    assert!(source_relevant("fixture", None, None, &bindings));
    assert!(!source_relevant("other", Some(&position), None, &bindings));
}

#[test]
fn nolo_controllers_are_named_after_their_receiver() {
    let device = nolo_device_id(0x28de, 0x00a1, Some("SN1"));
    assert_eq!(device, "28de:00a1:SN1");
    assert_eq!(nolo_device_id(0x0, 0xffff, None), "0000:ffff:receiver");
    assert_eq!(nolo_source_id(&device, 1), "nolo:28de:00a1:SN1:controller-1");
    assert_eq!(nolo_display_name(Some("NOLO Receiver"), 0), "NOLO Receiver / Controller 0");
    assert_eq!(nolo_display_name(None, 1), "NOLO CV1 / Controller 1");
}

#[test]
fn simulation_uses_declared_pose_action_and_virtual_feedback_bindings() {
    let original = InputConfig {
        schema_version: 2,
        position_source: Some(PoseSourceSelection {
            driver_id: "physical-driver".into(),
            device_id: "physical-device".into(),
            source_id: "physical-source".into(),
        }),
        orientation_source: None,
        bindings: vec![ActionBinding {
            action: "primary_tool".into(),
            action_type: ActionType::Float,
            source_id: "physical-source".into(),
            component_paths: vec!["axis/trigger".into()],
            invert: false,
        }],
        feedback_bindings: vec![],
        component_offsets: vec![("physical-source".to_string(), 0.5f64)],
        config_version: 7,
    };
    let components = SimulationComponents {
        start_stop_a: "action/start_stop".into(),
        start_stop_b: "action/start_stop_hold".into(),
        primary_tool: "action/primary_tool".into(),
    };
    let kept_offsets = original.component_offsets.clone();
    let physical = original.position_source.as_ref().unwrap().source_id.clone();
    let config = simulation_config(original, &components);
    let selection = config.position_source.as_ref().unwrap();
    assert_eq!(selection.source_id, "simulation:generic-action-source");
    assert_eq!(selection.driver_id, "generated-test-input");
    assert_eq!(selection.device_id, "generic-action-source");
    assert_eq!(
        config.orientation_source.as_ref().map(|source| source.source_id.as_str()),
        Some("simulation:generic-action-source")
    );
    assert_eq!(config.bindings.len(), 2);
    assert_eq!(config.bindings[0].action, "start_stop");
    assert!(config.bindings[0].action_type == ActionType::Boolean);
    assert_eq!(config.bindings[0].component_paths, ["action/start_stop", "action/start_stop_hold"]);
    assert_eq!(config.bindings[1].action, "primary_tool");
    assert_eq!(config.bindings[1].component_paths, ["action/primary_tool"]);
    assert!(validate_bindings(&config.bindings).is_ok());
    assert_eq!(config.feedback_bindings.len(), 1);
    assert!(is_virtual_feedback(&config.feedback_bindings[0]));
    assert_eq!(config.component_offsets, kept_offsets);
    assert_eq!((config.schema_version, config.config_version), (2, 7));
    assert_eq!(physical, "physical-source");
}
