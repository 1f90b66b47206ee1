use arm_backend::camera_config::CameraConfig;
use arm_backend::camera_selection::{
    CameraSource, DriverExtension, DriverParameter, ParameterCheck, ParameterValue, SavedProfiles, SelectError,
    StreamKind, StreamProfile,
};
use arm_backend::camera_stream::{Selection, StreamState};
use arm_backend::selection_plan::{
    commit_selection, complete_selection, prepare_selection, CheckRefusal, PreparedSelection, SelectRequest,
};

fn profile(key: &str, stream: StreamKind, fps: u32, is_default: bool) -> StreamProfile {
    StreamProfile {
        key: key.into(),
        stream,
        width: 640,
        height: 480,
        frames_per_second: fps,
        pixel_format: "rgb8".into(),
        is_default,
        available: true,
        unavailable_reason: None,
    }
}

fn parameter(key: &str, read_only: bool) -> DriverParameter {
    DriverParameter {
        key: key.into(),
        display_name: key.to_uppercase(),
        read_only,
        minimum_bits: 0.0f64.to_bits(),
        maximum_bits: 100.0f64.to_bits(),
    }
}

fn camera(id: &str, available: bool) -> CameraSource {
    CameraSource {
        source_id: id.into(),
        driver_id: "rs".into(),
        display_name: id.into(),
        device_model: None,
        serial_number: None,
        firmware_version: None,
        connection_type: None,
        physical_port: None,
        sensors: vec![],
        profiles: vec![
            profile("c30", StreamKind::Color, 30, true),
            profile("c15", StreamKind::Color, 15, false),
            profile("d60", StreamKind::Depth, 60, true),
        ],
        driver_extensions: vec![DriverExtension {
            namespace: "rs".into(),
            parameters: vec![parameter("exposure", false), parameter("serial", true)],
        }],
        available,
    }
}

fn value(key: &str, v: f64) -> ParameterValue {
    ParameterValue { namespace: "rs".into(), key: key.into(), value_bits: v.to_bits() }
}

fn request(id: Option<&str>, parameters: Option<Vec<ParameterValue>>) -> SelectRequest {
    SelectRequest {
        source_id: id.map(String::from),
        color_profile_key: None,
        depth_profile_key: None,
        output_frames_per_second_bits: None,
        driver_parameters: parameters,
    }
}

fn saved_config() -> CameraConfig<u8> {
    let mut config = CameraConfig::new();
    config.save_choice(
        "cam".into(),
        SavedProfiles {
            color_profile_key: "c15".into(),
            depth_profile_key: "d60".into(),
            output_frames_per_second_bits: Some(10.0f64.to_bits()),
            driver_parameters: vec![value("exposure", 1.0)],
            source_snapshot: None,
        },
    );
    config
}

fn prepared(sources: &Vec<CameraSource>, parameters: Vec<ParameterValue>) -> PreparedSelection {
    match prepare_selection(sources, &saved_config(), &request(Some("cam"), Some(parameters))) {
        Ok(p) => p,
        Err(e) => panic!("refused: {}", e.message()),
    }
}

#[test]
fn a_selection_must_name_a_refreshed_source() {
    let sources = vec![camera("cam", false), camera("other", true)];
    let config = saved_config();
    assert!(matches!(prepare_selection(&sources, &config, &request(None, None)), Err(SelectError::NoSource)));
    match prepare_selection(&sources, &config, &request(Some("cam"), None)) {
        Err(SelectError::SourceNotInRefresh(id)) => assert_eq!(id, "cam"),
        _ => panic!("unavailable source selected"),
    }
}

#[test]
fn a_prepared_selection_starts_from_the_saved_choice() {
    let sources = vec![camera("cam", false), camera("cam", true)];
    let p = prepared(&sources, vec![value("exposure", 2.0), value("serial", 3.0)]);
    assert_eq!(p.source, 1);
    assert_eq!((p.choice.color, p.choice.depth, p.choice.maximum_frames_per_second), (1, 2, 15));
    assert_eq!(p.output_frames_per_second_bits, Some(10.0f64.to_bits()));
    let keys: Vec<(&str, f64)> =
        p.driver_parameters.iter().map(|v| (v.key.as_str(), f64::from_bits(v.value_bits))).collect();
    assert_eq!(keys, [("exposure", 2.0), ("serial", 3.0)]);
    assert!(p.checks[0] == ParameterCheck::Adjustable(0, 0));
    assert!(p.checks[1] == ParameterCheck::ReadOnly(0, 1));
}

#[test]
fn a_bad_rate_is_refused_before_the_parameters() {
    let sources = vec![camera("cam", true)];
    // The saved exposure comes first, the requested read-only value second.
    let p = prepared(&sources, vec![value("serial", 3.0)]);
    assert_eq!(p.checks.len(), 2);
    assert!(matches!(
        complete_selection(&sources[0], p, false, 15.0f64.to_bits(), &vec![true, true]),
        Err(CheckRefusal::OutputRate)
    ));
    let p = prepared(&sources, vec![value("serial", 3.0)]);
    assert!(matches!(
        complete_selection(&sources[0], p, true, 15.0f64.to_bits(), &vec![true, true]),
        Err(CheckRefusal::Parameter(1))
    ));
    let p = prepared(&sources, vec![value("exposure", 300.0)]);
    assert!(matches!(
        complete_selection(&sources[0], p, true, 15.0f64.to_bits(), &vec![false]),
        Err(CheckRefusal::Parameter(0))
    ));
}

#[test]
fn a_completed_selection_is_saved_and_taken_on() {
    let sources = vec![camera("cam", true)];
    let mut config = saved_config();
    let mut request = request(Some("cam"), None);
    request.color_profile_key = Some("c30".into());
    let p = prepare_selection(&sources, &config, &request).ok().unwrap();
    let (chosen, saved) = match complete_selection(&sources[0], p, true, 30.0f64.to_bits(), &vec![true]) {
        Ok(done) => done,
        Err(_) => panic!("refused"),
    };
    assert_eq!(saved.color_profile_key, "c30");
    assert_eq!(saved.depth_profile_key, "d60");
    assert_eq!(saved.output_frames_per_second_bits, Some(10.0f64.to_bits()));
    assert_eq!(saved.source_snapshot.as_ref().unwrap().source_id, "cam");
    assert_eq!(saved.driver_parameters.len(), 1);
    let mut state = StreamState::new();
    state.open_requested("open-1");
    let mut selection = Selection::new();
    commit_selection(&mut config, &mut state, &mut selection, chosen, saved);
    assert_eq!(config.config_version, 2);
    assert_eq!(config.profiles.get("cam").unwrap().color_profile_key, "c30");
    assert_eq!(state.selected_source_id.as_deref(), Some("cam"));
    assert!(!state.desired_streaming);
    assert_eq!(selection.capture_frames_per_second, Some(30));
    assert_eq!(selection.output_frames_per_second_bits, Some(10.0f64.to_bits()));
    assert_eq!(selection.depth_profile_key.as_deref(), Some("d60"));
}

#[test]
fn without_a_saved_rate_the_maximum_is_taken() {
    let sources = vec![camera("fresh", true)];
    let config: CameraConfig<u8> = CameraConfig::new();
    let p = prepare_selection(&sources, &config, &request(Some("fresh"), None)).ok().unwrap();
    assert_eq!(p.output_frames_per_second_bits, None);
    assert_eq!(p.choice.maximum_frames_per_second, 30);
    let (chosen, saved) = match complete_selection(&sources[0], p, true, 30.0f64.to_bits(), &vec![]) {
        Ok(done) => done,
        Err(_) => panic!("refused"),
    };
    assert_eq!(chosen.output_frames_per_second_bits, 30.0f64.to_bits());
    assert_eq!(saved.output_frames_per_second_bits, Some(30.0f64.to_bits()));
    assert!(saved.driver_parameters.is_empty());
}
