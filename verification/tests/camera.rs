use arm_backend::camera_selection::{
    check_driver_parameters, choose_profiles, find_selectable_source, first_parameter_error, first_profile,
    merge_parameter_changes, parameter_error_message, selected_profile, CameraSource, DriverExtension,
    DriverParameter, ParameterCheck, ParameterValue, ProfileError, SavedProfiles, SelectError, StreamKind,
    StreamProfile,
};
use arm_backend::camera_sources::{copy_source, merge_saved_sources, sort_profiles, sort_sources};
use arm_backend::camera_config::{session_uses_camera, CameraConfig};
use arm_backend::keyed_list::KeyedList;
use arm_backend::camera_stream::{
    refresh_keeps_stream, dropped_between, plan_open, retain_after_reset, ChosenSelection, Completion, OutputUse,
    Selection, StartError, StreamState, WorkerAction, WorkerCommand, WorkerEvent, WorkerState,
};
use arm_backend::messages::RequestAction;

fn profile(key: &str, stream: StreamKind, fps: u32, is_default: bool, available: bool) -> StreamProfile {
    StreamProfile {
        key: key.into(),
        stream,
        width: 640,
        height: 480,
        frames_per_second: fps,
        pixel_format: "rgb8".into(),
        is_default,
        available,
        unavailable_reason: None,
    }
}

fn empty_source() -> CameraSource {
    CameraSource {
        source_id: String::new(),
        driver_id: String::new(),
        display_name: String::new(),
        device_model: None,
        serial_number: None,
        firmware_version: None,
        connection_type: None,
        physical_port: None,
        sensors: vec![],
        profiles: vec![],
        driver_extensions: vec![],
        available: false,
    }
}

fn source(id: &str, name: &str, profiles: Vec<StreamProfile>, available: bool) -> CameraSource {
    CameraSource { source_id: id.into(), display_name: name.into(), profiles, available, ..empty_source() }
}

fn value(namespace: &str, key: &str, value: f64) -> ParameterValue {
    ParameterValue { namespace: namespace.into(), key: key.into(), value_bits: value.to_bits() }
}

/// The first refused value of a request, with the floating-point range check done here.
fn validate(source: &CameraSource, values: &Vec<ParameterValue>) -> Result<(), usize> {
    let checks = check_driver_parameters(source, values);
    let in_range: Vec<bool> = checks
        .iter()
        .zip(values)
        .map(|(check, value)| match check {
            ParameterCheck::Adjustable(e, p) => {
                let parameter = &source.driver_extensions[*e].parameters[*p];
                let v = f64::from_bits(value.value_bits);
                v.is_finite()
                    && v >= f64::from_bits(parameter.minimum_bits)
                    && v <= f64::from_bits(parameter.maximum_bits)
            }
            _ => true,
        })
        .collect();
    match first_parameter_error(&checks, &in_range) {
        Some(i) => Err(i),
        None => Ok(()),
    }
}

#[test]
fn main_driver_parameters_must_come_from_reported_capabilities() {
    let source = empty_source();
    let result = validate(&source, &vec![value("librealsense2", "not-a-reported-key", 100.0)]);
    assert!(result.is_err());
}

#[test]
fn main_saved_camera_and_profile_remain_visible_when_temporarily_unavailable() {
    let profile = StreamProfile {
        key: "depth:640x480:z16le:30".into(),
        stream: StreamKind::Depth,
        width: 640,
        height: 480,
        frames_per_second: 30,
        pixel_format: "z16le".into(),
        is_default: true,
        available: true,
        unavailable_reason: None,
    };
    let snapshot = CameraSource {
        source_id: "realsense:stable-serial".into(),
        display_name: "Intel RealSense D415 · stable-serial".into(),
        profiles: vec![profile],
        available: true,
        ..empty_source()
    };
    let mut saved = KeyedList::new();
    saved.insert(
        snapshot.source_id.clone(),
        SavedProfiles {
            color_profile_key: "color:640x480:rgb8:30".into(),
            depth_profile_key: "depth:640x480:z16le:30".into(),
            output_frames_per_second_bits: Some(1.0f64.to_bits()),
            driver_parameters: vec![],
            source_snapshot: Some(snapshot),
        },
    );
    let mut sources = vec![];
    merge_saved_sources(&mut sources, &saved);
    assert_eq!(sources[0].source_id, "realsense:stable-serial");
    assert!(!sources[0].available);
    assert!(!sources[0].profiles[0].available);
    assert_eq!(sources[0].profiles[0].unavailable_reason.as_deref(), Some("设备当前未连接"));
}

#[test]
fn saved_profiles_missing_from_a_listed_source_are_marked_and_sorted() {
    let current = source(
        "cam",
        "B camera",
        vec![profile("depth:2", StreamKind::Depth, 30, true, true), profile("color:1", StreamKind::Color, 30, true, true)],
        true,
    );
    let snapshot = source(
        "cam",
        "B camera",
        vec![profile("color:0", StreamKind::Color, 15, false, true), profile("color:1", StreamKind::Color, 30, true, true)],
        true,
    );
    let other = source("other", "A camera", vec![], true);
    let mut saved = KeyedList::new();
    saved.insert(
        "cam".into(),
        SavedProfiles {
            color_profile_key: "color:0".into(),
            depth_profile_key: "depth:2".into(),
            output_frames_per_second_bits: None,
            driver_parameters: vec![],
            source_snapshot: Some(snapshot),
        },
    );
    let mut sources = vec![current, other];
    merge_saved_sources(&mut sources, &saved);
    assert_eq!(sources.len(), 2);
    assert_eq!(sources[0].display_name, "A camera");
    let keys: Vec<&str> = sources[1].profiles.iter().map(|p| p.key.as_str()).collect();
    assert_eq!(keys, ["color:0", "color:1", "depth:2"]);
    assert!(!sources[1].profiles[0].available);
    assert_eq!(sources[1].profiles[0].unavailable_reason.as_deref(), Some("驱动本次未报告该配置"));
    assert!(sources[1].profiles[1].available);
    assert!(sources[1].available);
}

#[test]
fn sorting_keeps_equal_keys_in_order() {
    let sorted = sort_profiles(vec![
        profile("b", StreamKind::Color, 1, false, true),
        profile("a", StreamKind::Color, 2, false, true),
        profile("b", StreamKind::Depth, 3, false, true),
    ]);
    let order: Vec<u32> = sorted.iter().map(|p| p.frames_per_second).collect();
    assert_eq!(order, [2, 1, 3]);
    let names = sort_sources(vec![source("1", "z", vec![], true), source("2", "m", vec![], true)]);
    assert_eq!(names[0].source_id, "2");
    let copy = copy_source(&names[1]);
    assert_eq!(copy.source_id, "1");
}

#[test]
fn default_profile_is_the_first_default_available_one() {
    let s = source(
        "cam",
        "cam",
        vec![
            profile("c1", StreamKind::Color, 30, false, true),
            profile("c2", StreamKind::Color, 15, true, false),
            profile("c3", StreamKind::Color, 60, true, true),
            profile("d1", StreamKind::Depth, 30, false, true),
        ],
        true,
    );
    assert_eq!(first_profile(&s, StreamKind::Color), Some(2));
    assert_eq!(first_profile(&s, StreamKind::Depth), Some(3));
    assert_eq!(first_profile(&source("x", "x", vec![], true), StreamKind::Depth), None);
}

#[test]
fn selection_prefers_requested_then_saved_then_default_profiles() {
    let s = source(
        "cam",
        "cam",
        vec![
            profile("c30", StreamKind::Color, 30, true, true),
            profile("c15", StreamKind::Color, 15, false, true),
            profile("d60", StreamKind::Depth, 60, true, true),
            profile("d6", StreamKind::Depth, 6, false, false),
        ],
        true,
    );
    let choice = choose_profiles(&s, None, None, None).ok().unwrap();
    assert_eq!((choice.color, choice.depth, choice.maximum_frames_per_second), (0, 2, 30));
    let saved = SavedProfiles {
        color_profile_key: "c15".into(),
        depth_profile_key: "d6".into(),
        output_frames_per_second_bits: None,
        driver_parameters: vec![],
        source_snapshot: None,
    };
    let choice = choose_profiles(&s, Some(&saved), None, None).ok().unwrap();
    assert_eq!((choice.color, choice.depth, choice.maximum_frames_per_second), (1, 2, 15));
    match choose_profiles(&s, None, Some("c30"), Some("d6")) {
        Err(SelectError::Unavailable(StreamKind::Depth, None)) => {}
        _ => panic!("an unavailable depth profile was accepted"),
    }
    match choose_profiles(&s, None, Some("nope"), None) {
        Err(e @ SelectError::NotReported(StreamKind::Color)) => {
            assert_eq!(e.message(), "所选彩色 profile 不是驱动最近报告的能力")
        }
        _ => panic!("an unreported colour profile was accepted"),
    }
    // Both keys are chosen before either is looked up.
    let empty = source("e", "e", vec![], true);
    match choose_profiles(&empty, None, Some("bogus"), None) {
        Err(SelectError::NoProfile(StreamKind::Depth)) => {}
        _ => panic!("a missing depth key must be reported before an unknown colour key"),
    }
    let no_depth = source("x", "x", vec![profile("c", StreamKind::Color, 30, true, true)], true);
    match choose_profiles(&no_depth, None, None, None) {
        Err(e @ SelectError::NoProfile(StreamKind::Depth)) => assert_eq!(e.message(), "来源没有深度 profile"),
        _ => panic!("a source without depth was accepted"),
    }
}

#[test]
fn selection_needs_an_available_listed_source() {
    let sources = vec![source("a", "a", vec![], false), source("a", "a", vec![], true)];
    assert_eq!(find_selectable_source(&sources, Some("a")).ok(), Some(1));
    match find_selectable_source(&sources, None) {
        Err(e @ SelectError::NoSource) => assert_eq!(e.message(), "请选择相机来源"),
        _ => panic!(),
    }
    match find_selectable_source(&sources, Some("b")) {
        Err(e @ SelectError::SourceNotInRefresh(_)) => {
            assert_eq!(e.message(), "来源 b 不在最近一次刷新结果中")
        }
        _ => panic!(),
    }
    let unavailable = SelectError::Unavailable(StreamKind::Color, Some("busy".into()));
    assert_eq!(unavailable.message(), "所选彩色 profile 当前不可用：busy");
    assert_eq!(SelectError::Unavailable(StreamKind::Depth, None).message(), "所选深度 profile 当前不可用：未知原因");
}

#[test]
fn starting_needs_chosen_available_profiles() {
    let s = source(
        "cam",
        "cam",
        vec![profile("c", StreamKind::Color, 30, true, true), profile("d", StreamKind::Depth, 30, true, false)],
        true,
    );
    assert_eq!(selected_profile(&s, Some("c"), StreamKind::Color).ok(), Some(0));
    match selected_profile(&s, None, StreamKind::Color) {
        Err(e @ ProfileError::NotSelected(StreamKind::Color)) => assert_eq!(e.message(), "尚未选择 Color profile"),
        _ => panic!(),
    }
    match selected_profile(&s, Some("d"), StreamKind::Depth) {
        Err(e @ ProfileError::Unavailable(_)) => assert_eq!(e.message(), "profile d 当前不可用"),
        _ => panic!(),
    }
    let sources = vec![s];
    match plan_open(&sources, Some("cam"), Some("c"), Some("d")) {
        Err(e @ StartError::Profile(_)) => assert_eq!(e.message(), "profile d 当前不可用"),
        _ => panic!(),
    }
    match plan_open(&sources, Some("other"), Some("c"), Some("d")) {
        Err(e @ StartError::SourceNotListed) => assert_eq!(e.message(), "所选相机不在最近一次刷新结果中"),
        _ => panic!(),
    }
    match plan_open(&sources, None, None, None) {
        Err(e @ StartError::NothingSelected) => assert_eq!(e.message(), "尚未选择相机"),
        _ => panic!(),
    }
}

#[test]
fn parameter_changes_replace_saved_values_in_place() {
    let saved = SavedProfiles {
        color_profile_key: String::new(),
        depth_profile_key: String::new(),
        output_frames_per_second_bits: None,
        driver_parameters: vec![value("rs", "exposure", 1.0), value("rs", "gain", 2.0)],
        source_snapshot: None,
    };
    let changes = vec![value("rs", "gain", 5.0), value("rs", "laser", 3.0)];
    let merged = merge_parameter_changes(Some(&saved), Some(&changes));
    let keys: Vec<(&str, f64)> =
        merged.iter().map(|v| (v.key.as_str(), f64::from_bits(v.value_bits))).collect();
    assert_eq!(keys, [("exposure", 1.0), ("gain", 5.0), ("laser", 3.0)]);
    assert!(merge_parameter_changes(None, None).is_empty());
}

#[test]
fn driver_parameter_checks_report_each_fault() {
    let mut s = empty_source();
    s.driver_extensions = vec![DriverExtension {
        namespace: "rs".into(),
        parameters: vec![
            DriverParameter {
                key: "exposure".into(),
                display_name: "曝光".into(),
                read_only: false,
                minimum_bits: 1.0f64.to_bits(),
                maximum_bits: 10.0f64.to_bits(),
            },
            DriverParameter {
                key: "temperature".into(),
                display_name: "温度".into(),
                read_only: true,
                minimum_bits: 0.0f64.to_bits(),
                maximum_bits: 0.0f64.to_bits(),
            },
        ],
    }];
    let values = vec![
        value("rs", "exposure", 5.0),
        value("rs", "exposure", 6.0),
        value("rs", "temperature", 1.0),
        value("rs", "nope", 1.0),
    ];
    let checks = check_driver_parameters(&s, &values);
    assert!(checks[0] == ParameterCheck::Adjustable(0, 0));
    assert!(checks[1] == ParameterCheck::Duplicate);
    assert!(checks[2] == ParameterCheck::ReadOnly(0, 1));
    assert!(checks[3] == ParameterCheck::Unknown);
    assert_eq!(validate(&s, &values), Err(1));
    assert_eq!(validate(&s, &vec![value("rs", "exposure", 50.0)]), Err(0));
    assert_eq!(validate(&s, &vec![value("rs", "exposure", 10.0)]), Ok(()));
    assert_eq!(parameter_error_message(&s, &values[1], &checks[1]).unwrap(), "驱动参数 rs / exposure 重复");
    assert_eq!(parameter_error_message(&s, &values[2], &checks[2]).unwrap(), "驱动参数 温度 是只读信息");
    assert_eq!(parameter_error_message(&s, &values[3], &checks[3]).unwrap(), "驱动最近没有报告参数 rs / nope");
    assert!(parameter_error_message(&s, &values[0], &checks[0]).is_none());
}

#[test]
fn only_the_pending_open_request_starts_streaming() {
    let mut state = StreamState::new();
    state.selected_source_id = Some("cam".into());
    state.open_requested("first");
    state.open_requested("second");
    assert_eq!(state.opened("first", "cam", Ok(())).unwrap_err(), "相机启动请求已被后续操作替换");
    assert!(!state.streaming);
    assert!(state.opened("second", "cam", Ok(())).is_ok());
    assert!(state.streaming);
    assert!(state.pending_open_request_id.is_none());
}

#[test]
fn an_open_for_a_changed_selection_is_refused() {
    let mut state = StreamState::new();
    state.selected_source_id = Some("cam".into());
    state.open_requested("r");
    state.selected_source_id = Some("other".into());
    assert_eq!(state.opened("r", "cam", Ok(())).unwrap_err(), "相机启动期间选择或运行状态已改变");
    assert!(!state.desired_streaming && !state.streaming);
    let mut failed = StreamState::new();
    failed.selected_source_id = Some("cam".into());
    failed.open_requested("r");
    assert_eq!(failed.opened("r", "cam", Err("no device".into())).unwrap_err(), "no device");
    assert!(!failed.desired_streaming);
}

#[test]
fn dropped_frames_are_the_sequence_gaps_not_captured() {
    let mut state = StreamState::new();
    state.selected_source_id = Some("cam".into());
    state.open_requested("r");
    state.opened("r", "cam", Ok(())).unwrap();
    assert!(state.accept_capture("other", 1, 10, 1, 0) == OutputUse::Ignored);
    assert!(state.accept_capture("cam", 10, 10, 1, 0) == OutputUse::Forwarded);
    assert_eq!(state.dropped_frame_count, 0);
    // Sequence advanced by 5, the worker captured 3 of those frames: 2 were lost.
    assert!(state.accept_capture("cam", 15, 20, 4, 2) == OutputUse::Forwarded);
    assert_eq!(state.dropped_frame_count, 2);
    assert_eq!(state.frame_window_count, 4);
    assert_eq!(state.output_window_count, 2);
    assert_eq!(state.skipped_output_frame_count, 2);
    assert_eq!(dropped_between(Some(3), 7), 3);
    assert_eq!(dropped_between(Some(3), 4), 0);
    assert_eq!(dropped_between(None, 9), 0);
}

#[test]
fn a_capture_failure_stops_streaming_unless_an_open_is_pending() {
    let mut state = StreamState::new();
    state.selected_source_id = Some("cam".into());
    state.open_requested("r");
    assert!(state.capture_failed() == OutputUse::Ignored);
    assert!(state.desired_streaming);
    state.opened("r", "cam", Ok(())).unwrap();
    assert!(state.capture_failed() == OutputUse::Stopped);
    assert!(!state.streaming && !state.desired_streaming);
    assert!(!state.begin_stop());
    let mut running = StreamState::new();
    running.open_requested("x");
    assert!(running.begin_stop());
    running.stopped();
    assert!(!running.desired_streaming);
}

#[test]
fn worker_counts_restart_with_each_stream() {
    let mut worker = WorkerState::new();
    assert!(worker.step(WorkerEvent::Opened(true)) == WorkerAction::Nothing);
    assert!(worker.step(WorkerEvent::Captured(false)) == WorkerAction::Nothing);
    assert!(
        worker.step(WorkerEvent::Captured(true))
            == WorkerAction::Output { captured_count: 2, skipped_count: 1 }
    );
    assert!(worker.step(WorkerEvent::Failed) == WorkerAction::Failure);
    assert!(!worker.active);
    worker.step(WorkerEvent::Closed);
    assert_eq!((worker.captured_count, worker.skipped_count), (0, 0));
}

#[test]
fn reset_keeps_available_sources_only_for_that_id() {
    let kept = retain_after_reset(
        vec![source("a", "a", vec![], false), source("a", "a2", vec![], true), source("b", "b", vec![], false)],
        "a",
    );
    let names: Vec<&str> = kept.iter().map(|s| s.display_name.as_str()).collect();
    assert_eq!(names, ["a2", "b"]);
}

#[test]
fn keyed_lists_keep_keys_in_order() {
    let mut list = KeyedList::new();
    list.insert("b".into(), 2);
    list.insert("a".into(), 1);
    list.insert("c".into(), 3);
    list.insert("b".into(), 20);
    assert_eq!(list.len(), 3);
    let keys: Vec<String> = (0..list.len()).map(|i| list.entry(i).0.clone()).collect();
    assert_eq!(keys, ["a", "b", "c"]);
    assert_eq!(list.get("b"), Some(&20));
    list.remove("a");
    list.remove("zzz");
    assert_eq!(list.get("a"), None);
    assert_eq!(list.len(), 2);
}

#[test]
fn saved_choices_are_replaced_and_forgotten_per_camera() {
    let choice = |key: &str| SavedProfiles {
        color_profile_key: key.into(),
        depth_profile_key: String::new(),
        output_frames_per_second_bits: None,
        driver_parameters: vec![],
        source_snapshot: None,
    };
    let mut config: CameraConfig<&str> = CameraConfig::new();
    config.save_choice("cam-b".into(), choice("first"));
    config.save_choice("cam-a".into(), choice("other"));
    config.save_choice("cam-b".into(), choice("second"));
    config.save_calibration("cam-b".into(), "solution");
    assert_eq!(config.config_version, 4);
    assert_eq!(config.profiles.get("cam-b").unwrap().color_profile_key, "second");
    assert_eq!(config.calibration("cam-b"), Some(&"solution"));
    config.forget("cam-b");
    assert!(config.profiles.get("cam-b").is_none());
    assert!(config.calibration("cam-b").is_none());
    assert_eq!(config.profiles.get("cam-a").unwrap().color_profile_key, "other");
    assert!(session_uses_camera(Some("cam-a"), "cam-a"));
    assert!(!session_uses_camera(Some("cam-a"), "cam-b"));
    assert!(!session_uses_camera(None, "cam-a"));
    config.forget_choice("cam-a");
    assert!(config.profiles.get("cam-a").is_none());
    assert_eq!(config.config_version, 6);
}

#[test]
fn a_refresh_keeps_streaming_only_from_an_available_selection() {
    let sources = vec![source("a", "a", vec![], false), source("b", "b", vec![], true)];
    assert!(!refresh_keeps_stream(&sources, Some("a")));
    assert!(refresh_keeps_stream(&sources, Some("b")));
    assert!(!refresh_keeps_stream(&sources, Some("c")));
    assert!(refresh_keeps_stream(&sources, None));
}

#[test]
fn configurations_list_choices_with_an_output_rate() {
    let choice = |rate: Option<f64>| SavedProfiles {
        color_profile_key: String::new(),
        depth_profile_key: String::new(),
        output_frames_per_second_bits: rate.map(f64::to_bits),
        driver_parameters: vec![],
        source_snapshot: None,
    };
    let mut config: CameraConfig<u8> = CameraConfig::new();
    config.save_choice("z".into(), choice(Some(5.0)));
    config.save_choice("m".into(), choice(None));
    config.save_choice("a".into(), choice(Some(1.0)));
    assert_eq!(config.configured_cameras(), ["a", "z"]);
}

#[test]
fn no_frames_leave_a_closed_worker_until_it_reopens() {
    let mut worker = WorkerState::new();
    assert!(worker.step(WorkerEvent::Opened(true)) == WorkerAction::Nothing);
    worker.step(WorkerEvent::Closed);
    assert!(worker.step(WorkerEvent::Captured(true)) == WorkerAction::Nothing);
    assert!(worker.step(WorkerEvent::Opened(false)) == WorkerAction::Nothing);
    assert!(worker.step(WorkerEvent::Captured(true)) == WorkerAction::Nothing);
    assert!(worker.step(WorkerEvent::Failed) == WorkerAction::Nothing);
    assert_eq!((worker.captured_count, worker.skipped_count), (0, 0));
    assert!(worker.step(WorkerEvent::Opened(true)) == WorkerAction::Nothing);
    assert!(
        worker.step(WorkerEvent::Captured(true))
            == WorkerAction::Output { captured_count: 1, skipped_count: 0 }
    );
}

#[test]
fn a_saved_selection_replaces_the_node_selection() {
    let s = source(
        "cam",
        "cam",
        vec![profile("c30", StreamKind::Color, 30, true, true), profile("d15", StreamKind::Depth, 15, true, true)],
        true,
    );
    let choice = choose_profiles(&s, None, None, None).ok().unwrap();
    let parameter = ParameterValue { namespace: "rs".into(), key: "exposure".into(), value_bits: 7 };
    let chosen = ChosenSelection::from_choice(&s, &choice, 15.0f64.to_bits(), vec![parameter]);
    let mut state = StreamState::new();
    state.open_requested("open-1");
    state.last_sequence = Some(9);
    state.dropped_frame_count = 3;
    let mut selection = Selection::new();
    assert!(state.conclude_selection(&mut selection, Ok(chosen)).is_ok());
    assert_eq!(state.selected_source_id.as_deref(), Some("cam"));
    assert!(!state.desired_streaming && !state.streaming);
    assert!(state.pending_open_request_id.is_none());
    assert_eq!((state.last_sequence, state.dropped_frame_count), (None, 0));
    assert_eq!(selection.color_profile_key.as_deref(), Some("c30"));
    assert_eq!(selection.depth_profile_key.as_deref(), Some("d15"));
    assert_eq!(selection.capture_frames_per_second, Some(15));
    assert_eq!(selection.output_frames_per_second_bits, Some(15.0f64.to_bits()));
    assert_eq!(selection.driver_parameters.len(), 1);
    assert_eq!(selection.driver_parameters[0].key, "exposure");
}

#[test]
fn a_refused_selection_changes_nothing() {
    let mut state = StreamState::new();
    state.open_requested("open-1");
    state.last_sequence = Some(9);
    let mut selection = Selection::new();
    selection.color_profile_key = Some("old".into());
    let answer = state.conclude_selection(&mut selection, Err("来源没有深度 profile".into()));
    assert_eq!(answer, Err("来源没有深度 profile".to_string()));
    assert!(state.desired_streaming);
    assert_eq!(state.pending_open_request_id.as_deref(), Some("open-1"));
    assert_eq!(state.last_sequence, Some(9));
    assert!(state.selected_source_id.is_none());
    assert_eq!(selection.color_profile_key.as_deref(), Some("old"));
}

#[test]
fn requests_to_the_worker_are_answered_once_each() {
    let mut worker = WorkerState::new();
    let found: Vec<String> = vec!["cam".into()];
    match worker.command(WorkerCommand::Discover { request_id: "d1".into(), action: RequestAction::Discover, found }) {
        Some(Completion::Discovered { request_id, action, found }) => {
            assert_eq!(request_id, "d1");
            assert!(action == RequestAction::Discover);
            assert_eq!(found, ["cam"]);
        }
        _ => panic!("discovery not answered"),
    }
    match worker.command::<Vec<String>>(WorkerCommand::Open {
        request_id: "o1".into(),
        action: RequestAction::Select,
        source_id: "cam".into(),
        result: Ok(()),
    }) {
        Some(Completion::Opened { request_id, source_id, result, .. }) => {
            assert_eq!((request_id.as_str(), source_id.as_str()), ("o1", "cam"));
            assert!(result.is_ok());
        }
        _ => panic!("open not answered"),
    }
    assert!(worker.active);
    assert!(worker.command::<Vec<String>>(WorkerCommand::UpdateToolPose).is_none());
    assert!(worker.active);
    assert!(worker.command::<Vec<String>>(WorkerCommand::Stop).is_none());
    assert!(!worker.active);
    match worker.command::<Vec<String>>(WorkerCommand::Reset {
        request_id: "r1".into(),
        action: RequestAction::Reset,
        source_id: "cam".into(),
        result: Err("busy".into()),
    }) {
        Some(Completion::Reset { request_id, result, .. }) => {
            assert_eq!(request_id, "r1");
            assert_eq!(result, Err("busy".to_string()));
        }
        _ => panic!("reset not answered"),
    }
    match worker.command::<Vec<String>>(WorkerCommand::Open {
        request_id: "o2".into(),
        action: RequestAction::Select,
        source_id: "cam".into(),
        result: Err("gone".into()),
    }) {
        Some(Completion::Opened { result, .. }) => assert_eq!(result, Err("gone".to_string())),
        _ => panic!("failed open not answered"),
    }
    assert!(!worker.active);
}
