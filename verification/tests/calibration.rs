use arm_backend::calibration::{
    calibration_motion_request, manual_mode_request_id, sample_id, AfterSample, Advance, CalibrationAction,
    CalibrationError, CalibrationHost, CalibrationPhase, CalibrationSession, ModelTargets, MotionReport,
    StartRequest,
};
use arm_backend::messages::RequestState;

type Session = CalibrationSession<&'static str, u32, &'static str>;

fn request(run: &str) -> StartRequest<&'static str> {
    StartRequest {
        run_id: run.into(),
        camera_source_id: None,
        robot_model_revision: None,
        board: Some("board"),
        calibration_tool_id: Some("tool".into()),
    }
}

fn model(count: u32) -> ModelTargets {
    ModelTargets { model_revision: "fixture-v1".into(), target_count: count }
}

fn report(id: &str, state: RequestState) -> MotionReport {
    MotionReport { request_id: id.into(), state, result_message: None }
}

#[test]
fn main_calibration_motion_uses_the_model_declared_joint_set() {
    let joints = vec!["axis-a".to_owned(), "axis-b".to_owned()];
    let positions = vec![("axis-a".to_owned(), 0.25f64), ("axis-b".to_owned(), -0.5f64)];
    let request = calibration_motion_request(&joints, "fixture-v1", "view-a", &positions, "run").ok().unwrap();
    assert_eq!(request.request_id, "run-view-a");
    assert_eq!(request.model_revision, "fixture-v1");
    assert_eq!(request.joints[0].0, "axis-a");
    assert_eq!(request.joints[1].1, -0.5);
}

#[test]
fn a_pose_missing_a_model_joint_is_refused() {
    let joints = vec!["axis-a".to_owned(), "axis-c".to_owned()];
    let positions = vec![("axis-a".to_owned(), 0.25f64)];
    match calibration_motion_request(&joints, "r", "view", &positions, "run") {
        Err(e @ CalibrationError::MissingJoint(_)) => assert_eq!(e.message(), "标定姿态缺少关节 axis-c"),
        _ => panic!(),
    }
}

#[test]
fn calibration_starts_only_on_the_streaming_camera() {
    let refused = |r: Result<Session, CalibrationError>| r.err().unwrap().message();
    assert_eq!(
        refused(Session::start(CalibrationHost::Camera, request("run"), None, true, Some(&model(2)))),
        "开始标定需要相机来源"
    );
    assert_eq!(
        refused(Session::start(CalibrationHost::Camera, request("run"), Some("cam"), false, Some(&model(2)))),
        "标定相机必须是当前正在采集的相机来源"
    );
    assert_eq!(
        refused(Session::start(CalibrationHost::Camera, request("run"), Some("cam"), true, None)),
        "开始标定需要机械臂型号信息"
    );
    let mut other = request("run");
    other.robot_model_revision = Some("other".into());
    assert_eq!(
        refused(Session::start(CalibrationHost::Camera, other, Some("cam"), true, Some(&model(2)))),
        "标定请求与当前机械臂型号不一致"
    );
    assert_eq!(
        refused(Session::start(CalibrationHost::Camera, request("run"), Some("cam"), true, Some(&model(0)))),
        "当前机械臂型号没有声明自动标定姿态"
    );
    let mut no_board = request("run");
    no_board.board = None;
    assert_eq!(
        refused(Session::start(CalibrationHost::Perception, no_board, Some("cam"), true, Some(&model(2)))),
        "开始标定需要标定板实测参数"
    );
    let mut elsewhere = request("run");
    elsewhere.camera_source_id = Some("other".into());
    assert_eq!(
        refused(Session::start(CalibrationHost::Perception, elsewhere, Some("cam"), true, Some(&model(2)))),
        "标定相机必须是当前启用的相机来源"
    );
}

#[test]
fn a_camera_run_visits_the_work_position_then_every_pose() {
    let mut s = Session::start(CalibrationHost::Camera, request("run"), Some("cam"), true, Some(&model(2))).ok().unwrap();
    assert!(s.active && s.phase == CalibrationPhase::Preparing);
    assert_eq!(s.stage_message.as_deref(), Some("正在切换到手动关节控制"));
    assert!(s.manual_mode_confirmed(&manual_mode_request_id("run")));
    assert!(!s.manual_mode_confirmed("run"));
    s.target_sent("work".into(), "run-work".into(), "工作位");
    assert_eq!(s.stage_message.as_deref(), Some("正在前往工作位"));
    assert!(s.advance(CalibrationHost::Camera, Some("cam"), Some(&report("other", RequestState::Succeeded)), false, true, true)
        == Advance::Nothing);
    assert!(s.advance(CalibrationHost::Camera, Some("cam"), Some(&report("run-work", RequestState::Planning)), false, true, true)
        == Advance::Nothing);
    assert_eq!(s.stage_message.as_deref(), Some("正在规划当前标定姿态"));
    assert!(s.advance(CalibrationHost::Camera, Some("cam"), Some(&report("run-work", RequestState::Succeeded)), false, true, true)
        == Advance::SendTarget);
    assert_eq!(s.current_target_index, Some(0));
    s.target_sent("view-a".into(), "run-view-a".into(), "视角 A");
    assert!(s.advance(CalibrationHost::Camera, Some("cam"), Some(&report("run-view-a", RequestState::Succeeded)), false, true, false)
        == Advance::AwaitCapture);
    assert!(s.advance(CalibrationHost::Camera, Some("cam"), Some(&report("run-view-a", RequestState::Succeeded)), false, true, true)
        == Advance::StartDetecting);
    assert!(s.phase == CalibrationPhase::Detecting);
    assert_eq!(sample_id(s.run_id.as_deref(), s.current_target_index.unwrap()), "run-sample-1");
    assert!(s.record_sample(7) == AfterSample::SendTarget);
    assert_eq!(s.current_target_index, Some(1));
    s.target_sent("view-b".into(), "run-view-b".into(), "视角 B");
    s.advance(CalibrationHost::Camera, Some("cam"), Some(&report("run-view-b", RequestState::Succeeded)), false, true, true);
    assert!(s.record_sample(8) == AfterSample::Solve);
    assert!(s.phase == CalibrationPhase::Solving);
    assert_eq!(s.observations, vec![7, 8]);
    s.solved("solution");
    assert!(s.phase == CalibrationPhase::AwaitingConfirmation);
    assert_eq!(s.solution().ok().copied(), Some("solution"));
    s.mark_applied();
    assert!(!s.active && s.phase == CalibrationPhase::Applied);
    assert_eq!(s.stage_message.as_deref(), Some("标定结果已应用并保存"));
}

#[test]
fn a_failed_pose_motion_fails_the_run() {
    let mut s = Session::start(CalibrationHost::Perception, request("run"), Some("cam"), true, Some(&model(1))).ok().unwrap();
    assert_eq!(s.current_target_index, Some(0));
    assert!(s.advance(CalibrationHost::Perception, Some("cam"), None, true, false, false) == Advance::SendTarget);
    s.target_sent("view-a".into(), "run-view-a".into(), "View A");
    assert!(s.advance(CalibrationHost::Perception, Some("cam"), Some(&report("run-view-a", RequestState::Succeeded)), true, false, true)
        == Advance::Nothing);
    assert_eq!(s.stage_message.as_deref(), Some("轨迹已结束，等待关节反馈稳定在标定姿态"));
    s.advance(CalibrationHost::Perception, Some("cam"), Some(&report("run-view-a", RequestState::Failed)), true, true, true);
    assert!(!s.active && s.phase == CalibrationPhase::Failed);
    assert_eq!(s.original_error.as_deref(), Some("标定姿态运动失败"));
}

#[test]
fn a_changed_camera_stops_the_run() {
    let mut s = Session::start(CalibrationHost::Camera, request("run"), Some("cam"), true, Some(&model(1))).ok().unwrap();
    assert!(s.advance(CalibrationHost::Camera, Some("other"), None, false, true, true) == Advance::SourceChanged);
    assert_eq!(CalibrationError::SourceChanged.message(), "当前相机来源已改变，自动标定已停止");
    s.request_finished(CalibrationAction::Start, Some("boom"));
    assert!(s.phase == CalibrationPhase::Failed);
    assert_eq!(s.original_error.as_deref(), Some("boom"));
}

#[test]
fn nothing_to_apply_without_a_solution() {
    let mut s = Session::idle();
    assert!(matches!(s.solution(), Err(CalibrationError::NothingToApply)));
    s.request_finished(CalibrationAction::Apply, Some("尚无可应用的标定结果"));
    assert!(s.phase == CalibrationPhase::Idle);
    assert_eq!(s.original_error.as_deref(), Some("尚无可应用的标定结果"));
    s.detection_missed("no board");
    assert_eq!(s.stage_message.as_deref(), Some("等待识别 ChArUco：no board"));
    s.awaiting_frame();
    assert_eq!(s.stage_message.as_deref(), Some("等待彩色相机帧"));
    assert_eq!(sample_id(None, 9), "calibration-sample-10");
}
