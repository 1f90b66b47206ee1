//! The automatic hand-eye calibration session shared by the camera and perception
//! nodes: switch the arm to manual control, visit each declared calibration pose, wait
//! for it to settle, detect the ChArUco board, and solve once every pose has a sample.
//! The board, the observations and the solution are carried unread (`B`, `O`, `R`).
use vstd::prelude::*;
use crate::messages::RequestState;
use crate::text::{decimal_text, owned, push_decimal, str_eq};

verus! {

/// Where a calibration session stands.
#[derive(PartialEq, Eq, Structural, Clone, Copy)]
pub enum CalibrationPhase {
    Idle,
    Preparing,
    Moving,
    Detecting,
    Solving,
    AwaitingConfirmation,
    Applied,
    Failed,
}

/// Which node runs the session: the camera node calibrates the camera it streams from;
/// the perception node calibrates the camera it is configured for.
#[derive(PartialEq, Eq, Structural, Clone, Copy)]
pub enum CalibrationHost {
    Camera,
    Perception,
}

/// An automatic calibration session.
pub struct CalibrationSession<B, O, R> {
    pub active: bool,
    pub phase: CalibrationPhase,
    pub run_id: Option<String>,
    pub current_target_index: Option<u32>,
    pub target_count: u32,
    pub current_target_key: Option<String>,
    pub motion_request_id: Option<String>,
    pub stage_message: Option<String>,
    pub board: Option<B>,
    pub camera_source_id: Option<String>,
    pub robot_model_revision: Option<String>,
    pub calibration_tool_id: Option<String>,
    pub observations: Vec<O>,
    pub solved_result: Option<R>,
    pub original_error: Option<String>,
}

pub open spec fn text_of(value: Option<String>) -> Option<Seq<char>> {
    match value {
        Some(s) => Some(s@),
        None => None,
    }
}

pub open spec fn text_of_str(value: Option<&str>) -> Option<Seq<char>> {
    match value {
        Some(s) => Some(s@),
        None => None,
    }
}

/// A session that has not started.
pub open spec fn is_idle<B, O, R>(s: CalibrationSession<B, O, R>) -> bool {
    &&& !s.active
    &&& s.phase == CalibrationPhase::Idle
    &&& s.run_id is None
    &&& s.current_target_index is None
    &&& s.target_count == 0
    &&& s.current_target_key is None
    &&& s.motion_request_id is None
    &&& s.stage_message is None
    &&& s.board is None
    &&& s.camera_source_id is None
    &&& s.robot_model_revision is None
    &&& s.calibration_tool_id is None
    &&& s.observations@.len() == 0
    &&& s.solved_result is None
    &&& s.original_error is None
}

/// Why a calibration step is refused or stopped.
pub enum CalibrationError {
    NoSource,
    SourceNotActive(CalibrationHost),
    NoModel,
    ModelMismatch,
    NoTargets,
    NoBoard,
    NoTool,
    NothingToApply,
    SourceChanged,
    MissingJoint(String),
}

pub open spec fn calibration_error_text(error: CalibrationError) -> Seq<char> {
    match error {
        CalibrationError::NoSource => "开始标定需要相机来源"@,
        CalibrationError::SourceNotActive(CalibrationHost::Camera) => "标定相机必须是当前正在采集的相机来源"@,
        CalibrationError::SourceNotActive(CalibrationHost::Perception) => "标定相机必须是当前启用的相机来源"@,
        CalibrationError::NoModel => "开始标定需要机械臂型号信息"@,
        CalibrationError::ModelMismatch => "标定请求与当前机械臂型号不一致"@,
        CalibrationError::NoTargets => "当前机械臂型号没有声明自动标定姿态"@,
        CalibrationError::NoBoard => "开始标定需要标定板实测参数"@,
        CalibrationError::NoTool => "开始标定需要测试爪标识"@,
        CalibrationError::NothingToApply => "尚无可应用的标定结果"@,
        CalibrationError::SourceChanged => "当前相机来源已改变，自动标定已停止"@,
        CalibrationError::MissingJoint(key) => "标定姿态缺少关节 "@ + key@,
    }
}

impl CalibrationError {
    /// The message reported for the error.
    pub fn message(&self) -> (res: String)
        ensures
            res@ == calibration_error_text(*self),
    {
        match self {
            CalibrationError::NoSource => owned("开始标定需要相机来源"),
            CalibrationError::SourceNotActive(CalibrationHost::Camera) => owned("标定相机必须是当前正在采集的相机来源"),
            CalibrationError::SourceNotActive(CalibrationHost::Perception) => owned("标定相机必须是当前启用的相机来源"),
            CalibrationError::NoModel => owned("开始标定需要机械臂型号信息"),
            CalibrationError::ModelMismatch => owned("标定请求与当前机械臂型号不一致"),
            CalibrationError::NoTargets => owned("当前机械臂型号没有声明自动标定姿态"),
            CalibrationError::NoBoard => owned("开始标定需要标定板实测参数"),
            CalibrationError::NoTool => owned("开始标定需要测试爪标识"),
            CalibrationError::NothingToApply => owned("尚无可应用的标定结果"),
            CalibrationError::SourceChanged => owned("当前相机来源已改变，自动标定已停止"),
            CalibrationError::MissingJoint(key) => {
                let mut m = owned("标定姿态缺少关节 ");
                m.append(key.as_str());
                m
            },
        }
    }
}

/// What a start request asks for.
pub struct StartRequest<B> {
    pub run_id: String,
    pub camera_source_id: Option<String>,
    pub robot_model_revision: Option<String>,
    pub board: Option<B>,
    pub calibration_tool_id: Option<String>,
}

/// The robot model as calibration needs it: its revision and how many calibration poses
/// it declares.
pub struct ModelTargets {
    pub model_revision: String,
    pub target_count: u32,
}

/// The id of the request that switches the arm to manual control for a run.
pub open spec fn manual_mode_id(run_id: Seq<char>) -> Seq<char> {
    run_id + "-manual-mode"@
}

pub fn manual_mode_request_id(run_id: &str) -> (res: String)
    ensures
        res@ == manual_mode_id(run_id@),
{
    let mut m = owned(run_id);
    m.append("-manual-mode");
    m
}

/// The camera a start request calibrates: the one it names, else the current one.
pub open spec fn start_source<B>(request: StartRequest<B>, current_source: Option<&str>) -> Option<Seq<char>> {
    match request.camera_source_id {
        Some(s) => Some(s@),
        None => text_of_str(current_source),
    }
}

/// Why a start request is refused, checked in order; `None` when it is accepted.
pub open spec fn start_refusal<B>(
    host: CalibrationHost,
    request: StartRequest<B>,
    current_source: Option<&str>,
    source_active: bool,
    model: Option<&ModelTargets>,
) -> Option<CalibrationError> {
    let source = start_source(request, current_source);
    if source is None {
        Some(CalibrationError::NoSource)
    } else if !(text_of_str(current_source) == source && source_active) {
        Some(CalibrationError::SourceNotActive(host))
    } else if model is None {
        Some(CalibrationError::NoModel)
    } else if request.robot_model_revision matches Some(r) && r@ != model->0.model_revision@ {
        Some(CalibrationError::ModelMismatch)
    } else if model->0.target_count == 0 {
        Some(CalibrationError::NoTargets)
    } else if request.board is None {
        Some(CalibrationError::NoBoard)
    } else if request.calibration_tool_id is None {
        Some(CalibrationError::NoTool)
    } else {
        None
    }
}

impl<B, O, R> CalibrationSession<B, O, R> {
    /// A session that has not started.
    pub fn idle() -> (res: Self)
        ensures
            is_idle(res),
    {
        CalibrationSession {
            active: false,
            phase: CalibrationPhase::Idle,
            run_id: None,
            current_target_index: None,
            target_count: 0,
            current_target_key: None,
            motion_request_id: None,
            stage_message: None,
            board: None,
            camera_source_id: None,
            robot_model_revision: None,
            calibration_tool_id: None,
            observations: Vec::new(),
            solved_result: None,
            original_error: None,
        }
    }

    /// Starts a run, checked in this order: a camera source is named (or one is current),
    /// it is the host's active camera (for the camera node: selected and streaming), the
    /// robot model is known, the requested revision (if any) is the model's, the model
    /// declares calibration poses, and the board and test gripper are given. The run then
    /// prepares (switches to manual control); the camera node picks the first pose after
    /// the work position, the perception node starts at the first pose.
    pub fn start(
        host: CalibrationHost,
        request: StartRequest<B>,
        current_source: Option<&str>,
        source_active: bool,
        model: Option<&ModelTargets>,
    ) -> (res: Result<Self, CalibrationError>)
        ensures
            match res {
                Err(e) => start_refusal(host, request, current_source, source_active, model) == Some(e),
                Ok(s) => {
                    &&& start_refusal(host, request, current_source, source_active, model) is None
                    &&& request.calibration_tool_id is Some
                    &&& request.board is Some
                    &&& model is Some
                    &&& s.active
                    &&& s.phase == CalibrationPhase::Preparing
                    &&& text_of(s.run_id) == Some(request.run_id@)
                    &&& s.current_target_index == if host == CalibrationHost::Camera {
                        None
                    } else {
                        Some(0u32)
                    }
                    &&& s.target_count == model->0.target_count
                    &&& s.current_target_key is None
                    &&& s.motion_request_id is None
                    &&& text_of(s.stage_message) == Some("正在切换到手动关节控制"@)
                    &&& s.board == request.board
                    &&& text_of(s.camera_source_id) == start_source(request, current_source)
                    &&& text_of(s.robot_model_revision) == Some(model->0.model_revision@)
                    &&& text_of(s.calibration_tool_id) == text_of(request.calibration_tool_id)
                    &&& s.observations@.len() == 0
                    &&& s.solved_result is None
                    &&& s.original_error is None
                },
            },
    {
        let source: String = match request.camera_source_id {
            Some(s) => s,
            None => match current_source {
                Some(c) => owned(c),
                None => {
                    return Err(CalibrationError::NoSource);
                },
            },
        };
        let matches = match current_source {
            Some(c) => str_eq(c, source.as_str()),
            None => false,
        };
        if !matches || !source_active {
            return Err(CalibrationError::SourceNotActive(host));
        }
        let model = match model {
            Some(m) => m,
            None => {
                return Err(CalibrationError::NoModel);
            },
        };
        let revision = match request.robot_model_revision {
            Some(r) => {
                if !str_eq(r.as_str(), model.model_revision.as_str()) {
                    return Err(CalibrationError::ModelMismatch);
                }
                r
            },
            None => model.model_revision.clone(),
        };
        if model.target_count == 0 {
            return Err(CalibrationError::NoTargets);
        }
        let board = match request.board {
            Some(b) => b,
            None => {
                return Err(CalibrationError::NoBoard);
            },
        };
        let tool = match request.calibration_tool_id {
            Some(t) => t,
            None => {
                return Err(CalibrationError::NoTool);
            },
        };
        Ok(CalibrationSession {
            active: true,
            phase: CalibrationPhase::Preparing,
            run_id: Some(request.run_id),
            current_target_index: match host {
                CalibrationHost::Camera => None,
                CalibrationHost::Perception => Some(0),
            },
            target_count: model.target_count,
            current_target_key: None,
            motion_request_id: None,
            stage_message: Some(owned("正在切换到手动关节控制")),
            board: Some(board),
            camera_source_id: Some(source),
            robot_model_revision: Some(revision),
            calibration_tool_id: Some(tool),
            observations: Vec::new(),
            solved_result: None,
            original_error: None,
        })
    }

    /// Ends the run as failed with the message.
    pub fn fail(&mut self, message: &str)
        ensures
            !final(self).active,
            final(self).phase == CalibrationPhase::Failed,
            text_of(final(self).stage_message) == Some(message@),
            text_of(final(self).original_error) == Some(message@),
            final(self).run_id == old(self).run_id,
            final(self).current_target_index == old(self).current_target_index,
            final(self).target_count == old(self).target_count,
            final(self).observations == old(self).observations,
            final(self).solved_result == old(self).solved_result,
            final(self).camera_source_id == old(self).camera_source_id,
    {
        self.active = false;
        self.phase = CalibrationPhase::Failed;
        self.stage_message = Some(owned(message));
        self.original_error = Some(owned(message));
    }

    /// Records that the motion to a pose was sent: the run now moves there.
    pub fn target_sent(&mut self, target_key: String, motion_request_id: String, target_label: &str)
        ensures
            final(self).phase == CalibrationPhase::Moving,
            final(self).current_target_key == Some(target_key),
            final(self).motion_request_id == Some(motion_request_id),
            text_of(final(self).stage_message) == Some("正在前往"@ + target_label@),
            final(self).active == old(self).active,
            final(self).run_id == old(self).run_id,
            final(self).current_target_index == old(self).current_target_index,
            final(self).target_count == old(self).target_count,
            final(self).observations == old(self).observations,
            final(self).solved_result == old(self).solved_result,
            final(self).camera_source_id == old(self).camera_source_id,
            final(self).original_error == old(self).original_error,
    {
        self.phase = CalibrationPhase::Moving;
        self.current_target_key = Some(target_key);
        self.motion_request_id = Some(motion_request_id);
        let mut m = owned("正在前往");
        m.append(target_label);
        self.stage_message = Some(m);
    }
}

/// The latest motion the motion node reports.
pub struct MotionReport {
    pub request_id: String,
    pub state: RequestState,
    pub result_message: Option<String>,
}

/// What the host must do after the session advanced.
#[derive(PartialEq, Eq, Structural)]
pub enum Advance {
    /// Nothing to do.
    Nothing,
    /// The camera source changed: stop the run (`CalibrationError::SourceChanged`).
    SourceChanged,
    /// Send the motion to the current pose (the work position for the camera node when
    /// no pose index is set yet).
    SendTarget,
    /// The pose was reached; wait for the capture delay (the host reports the time left).
    AwaitCapture,
    /// The capture delay is over: detection starts on frames received from now on.
    StartDetecting,
}

pub open spec fn reported_is(latest: Option<MotionReport>, expected: Option<String>) -> bool {
    match latest {
        Some(r) => expected matches Some(e) && e@ == r.request_id@,
        None => expected is None,
    }
}

/// `after` and `res` are what recording `observation` in `before` gives.
pub open spec fn sample_recorded<B, O, R>(
    before: CalibrationSession<B, O, R>,
    after: CalibrationSession<B, O, R>,
    observation: O,
    res: AfterSample,
) -> bool {
    &&& ({
                let next = (match before.current_target_index {
                    Some(i) => i,
                    None => 0u32,
                }) + 1;
                &&& after.observations@ == before.observations@.push(observation)
                &&& after.solved_result is None
                &&& next < before.target_count ==> res == AfterSample::SendTarget
                    && after.current_target_index == Some(next as u32) && after.phase
                    == before.phase && after.stage_message == before.stage_message
                &&& next >= before.target_count ==> res == AfterSample::Solve
                    && after.current_target_index == before.current_target_index
                    && after.phase == CalibrationPhase::Solving && text_of(after.stage_message)
                    == Some("正在求解相机外参"@)
            })
    &&& after.active == before.active
    &&& after.target_count == before.target_count
    &&& after.run_id == before.run_id
    &&& after.camera_source_id == before.camera_source_id
    &&& after.original_error == before.original_error
}

/// One sample per target visited so far: before the sample at target `i` there are `i`
/// samples (no target yet counts as the first).
pub open spec fn samples_match_targets<B, O, R>(s: CalibrationSession<B, O, R>) -> bool {
    s.observations@.len() == match s.current_target_index {
        Some(i) => i as int,
        None => 0,
    }
}

/// The run is at one of its targets.
pub open spec fn at_a_target<B, O, R>(s: CalibrationSession<B, O, R>) -> bool {
    (match s.current_target_index {
        Some(i) => i as int,
        None => 0,
    }) < s.target_count
}

/// A sample is taken at each target: while targets remain, recording a sample keeps one
/// sample per visited target, and solving starts with exactly one sample per target.
pub proof fn solving_starts_with_one_sample_per_target<B, O, R>(
    before: CalibrationSession<B, O, R>,
    after: CalibrationSession<B, O, R>,
    observation: O,
    res: AfterSample,
)
    requires
        samples_match_targets(before),
        at_a_target(before),
        sample_recorded(before, after, observation, res),
    ensures
        res == AfterSample::SendTarget ==> samples_match_targets(after) && at_a_target(after),
        res == AfterSample::Solve ==> after.observations@.len() == after.target_count,
{
}

/// Every operation other than recording a sample leaves the samples as they were and at
/// most moves from no pose to the first pose (see their contracts); such a step keeps one
/// sample per visited target.
pub proof fn other_steps_keep_one_sample_per_target<B, O, R>(
    before: CalibrationSession<B, O, R>,
    after: CalibrationSession<B, O, R>,
)
    requires
        samples_match_targets(before),
        after.observations == before.observations,
        after.current_target_index == before.current_target_index || (before.current_target_index is None
            && after.current_target_index == Some(0u32)),
    ensures
        samples_match_targets(after),
{
}

impl<B, O, R> CalibrationSession<B, O, R> {
    /// Advances an active run on the latest motion report: while preparing, the
    /// perception node sends the first pose once the arm is in manual mode; while moving
    /// to a pose, only the report of that motion counts: planning and executing update
    /// the stage message, failure or cancellation fails the run, and success waits for
    /// the pose to settle (perception: joint feedback within tolerance, `target_reached`)
    /// and for the capture delay (`capture_due`) before detection starts. The camera
    /// node's first motion goes to the work position, after which the first pose follows.
    pub fn advance(
        &mut self,
        host: CalibrationHost,
        current_source: Option<&str>,
        latest: Option<&MotionReport>,
        manual_mode: bool,
        target_reached: bool,
        capture_due: bool,
    ) -> (res: Advance)
        ensures
            !old(self).active ==> res == Advance::Nothing && *final(self) == *old(self),
            old(self).active && text_of(old(self).camera_source_id) != text_of_str(current_source) ==> res
                == Advance::SourceChanged && *final(self) == *old(self),
            old(self).active && text_of(old(self).camera_source_id) == text_of_str(current_source) ==> {
                match old(self).phase {
                    CalibrationPhase::Preparing => if host == CalibrationHost::Perception && manual_mode {
                        res == Advance::SendTarget && *final(self) == *old(self)
                    } else {
                        res == Advance::Nothing && *final(self) == *old(self)
                    },
                    CalibrationPhase::Moving => match latest {
                        Some(r) => if reported_is(Some(*r), old(self).motion_request_id) {
                            match r.state {
                                RequestState::Succeeded => if host == CalibrationHost::Camera
                                    && old(self).current_target_index is None {
                                    res == Advance::SendTarget && final(self).current_target_index == Some(0u32)
                                        && final(self).phase == old(self).phase && final(self).stage_message
                                        == old(self).stage_message
                                } else if host == CalibrationHost::Perception && !target_reached {
                                    res == Advance::Nothing && text_of(final(self).stage_message) == Some(
                                        "轨迹已结束，等待关节反馈稳定在标定姿态"@,
                                    ) && final(self).phase == old(self).phase
                                } else if !capture_due {
                                    res == Advance::AwaitCapture && *final(self) == *old(self)
                                } else {
                                    res == Advance::StartDetecting && final(self).phase == CalibrationPhase::Detecting
                                        && text_of(final(self).stage_message) == Some("运动完成，正在识别 ChArUco"@)
                                },
                                RequestState::Failed | RequestState::Cancelled => res == Advance::Nothing
                                    && !final(self).active && final(self).phase == CalibrationPhase::Failed
                                    && text_of(final(self).original_error) == Some(
                                    match r.result_message {
                                        Some(m) => m@,
                                        None => "标定姿态运动失败"@,
                                    },
                                ),
                                RequestState::Planning => res == Advance::Nothing && text_of(final(self).stage_message)
                                    == Some("正在规划当前标定姿态"@) && final(self).phase == old(self).phase,
                                RequestState::Executing => res == Advance::Nothing && text_of(final(self).stage_message)
                                    == Some("正在执行当前标定姿态"@) && final(self).phase == old(self).phase,
                                _ => res == Advance::Nothing && *final(self) == *old(self),
                            }
                        } else {
                            res == Advance::Nothing && *final(self) == *old(self)
                        },
                        None => res == Advance::Nothing && *final(self) == *old(self),
                    },
                    _ => res == Advance::Nothing && *final(self) == *old(self),
                }
            },
            final(self).observations == old(self).observations,
            final(self).target_count == old(self).target_count,
            final(self).run_id == old(self).run_id,
            final(self).camera_source_id == old(self).camera_source_id,
            final(self).solved_result == old(self).solved_result,
            // The pose index only ever moves from no pose to the first pose here.
            final(self).current_target_index == old(self).current_target_index || (old(self).current_target_index is None
                && final(self).current_target_index == Some(0u32)),
    {
        if !self.active {
            return Advance::Nothing;
        }
        let same_source = match (&self.camera_source_id, current_source) {
            (Some(a), Some(b)) => str_eq(a.as_str(), b),
            (None, None) => true,
            _ => false,
        };
        if !same_source {
            return Advance::SourceChanged;
        }
        match self.phase {
            CalibrationPhase::Preparing => {
                if host == CalibrationHost::Perception && manual_mode {
                    Advance::SendTarget
                } else {
                    Advance::Nothing
                }
            },
            CalibrationPhase::Moving => {
                let report = match latest {
                    Some(r) => r,
                    None => {
                        return Advance::Nothing;
                    },
                };
                let expected = match &self.motion_request_id {
                    Some(e) => str_eq(e.as_str(), report.request_id.as_str()),
                    None => false,
                };
                if !expected {
                    return Advance::Nothing;
                }
                match report.state {
                    RequestState::Succeeded => {
                        if host == CalibrationHost::Camera && self.current_target_index.is_none() {
                            self.current_target_index = Some(0);
                            return Advance::SendTarget;
                        }
                        if host == CalibrationHost::Perception && !target_reached {
                            self.stage_message = Some(owned("轨迹已结束，等待关节反馈稳定在标定姿态"));
                            return Advance::Nothing;
                        }
                        if !capture_due {
                            return Advance::AwaitCapture;
                        }
                        self.phase = CalibrationPhase::Detecting;
                        self.stage_message = Some(owned("运动完成，正在识别 ChArUco"));
                        Advance::StartDetecting
                    },
                    RequestState::Failed | RequestState::Cancelled => {
                        let message = match &report.result_message {
                            Some(m) => m.clone(),
                            None => owned("标定姿态运动失败"),
                        };
                        self.fail(message.as_str());
                        Advance::Nothing
                    },
                    RequestState::Planning => {
                        self.stage_message = Some(owned("正在规划当前标定姿态"));
                        Advance::Nothing
                    },
                    RequestState::Executing => {
                        self.stage_message = Some(owned("正在执行当前标定姿态"));
                        Advance::Nothing
                    },
                    _ => Advance::Nothing,
                }
            },
            _ => Advance::Nothing,
        }
    }
}


/// What to do after a sample was recorded.
#[derive(PartialEq, Eq, Structural)]
pub enum AfterSample {
    /// Move to the next pose.
    SendTarget,
    /// Every pose has a sample: solve.
    Solve,
}

/// Which calibration request was handled.
#[derive(PartialEq, Eq, Structural, Clone, Copy)]
pub enum CalibrationAction {
    Start,
    Apply,
    Cancel,
}

impl<B, O, R> CalibrationSession<B, O, R> {
    /// Records the sample of the current pose (which makes an earlier solution stale),
    /// then moves on to the next pose, or solves when every pose has its sample.
    pub fn record_sample(&mut self, observation: O) -> (res: AfterSample)
        requires
            (match old(self).current_target_index {
                Some(i) => i,
                None => 0u32,
            }) < u32::MAX,
        ensures
            sample_recorded(*old(self), *final(self), observation, res),
    {
        self.observations.push(observation);
        self.solved_result = None;
        let index = match self.current_target_index {
            Some(i) => i,
            None => 0,
        };
        let next = index + 1;
        if next < self.target_count {
            self.current_target_index = Some(next);
            AfterSample::SendTarget
        } else {
            self.phase = CalibrationPhase::Solving;
            self.stage_message = Some(owned("正在求解相机外参"));
            AfterSample::Solve
        }
    }

    /// Records a solution, which awaits confirmation.
    pub fn solved(&mut self, result: R)
        ensures
            final(self).solved_result == Some(result),
            final(self).phase == CalibrationPhase::AwaitingConfirmation,
            final(self).current_target_index == old(self).current_target_index,
            text_of(final(self).stage_message) == Some("自动采样和求解完成，等待确认应用"@),
            final(self).active == old(self).active,
            final(self).observations == old(self).observations,
            final(self).run_id == old(self).run_id,
            final(self).camera_source_id == old(self).camera_source_id,
            final(self).original_error == old(self).original_error,
    {
        self.solved_result = Some(result);
        self.phase = CalibrationPhase::AwaitingConfirmation;
        self.stage_message = Some(owned("自动采样和求解完成，等待确认应用"));
    }

    /// The board was not found in a frame: keep waiting for the next one.
    pub fn detection_missed(&mut self, error: &str)
        ensures
            text_of(final(self).stage_message) == Some("等待识别 ChArUco："@ + error@),
            final(self).phase == old(self).phase,
            final(self).active == old(self).active,
            final(self).observations == old(self).observations,
            final(self).solved_result == old(self).solved_result,
            final(self).current_target_index == old(self).current_target_index,
            final(self).original_error == old(self).original_error,
    {
        let mut m = owned("等待识别 ChArUco：");
        m.append(error);
        self.stage_message = Some(m);
    }

    /// While detecting, no colour frame has arrived yet.
    pub fn awaiting_frame(&mut self)
        ensures
            text_of(final(self).stage_message) == Some("等待彩色相机帧"@),
            final(self).phase == old(self).phase,
            final(self).active == old(self).active,
            final(self).observations == old(self).observations,
            final(self).solved_result == old(self).solved_result,
            final(self).current_target_index == old(self).current_target_index,
            final(self).original_error == old(self).original_error,
    {
        self.stage_message = Some(owned("等待彩色相机帧"));
    }

    /// The solution to apply; there must be one.
    pub fn solution(&self) -> (res: Result<&R, CalibrationError>)
        ensures
            match self.solved_result {
                Some(r) => res matches Ok(x) && *x == r,
                None => res matches Err(CalibrationError::NothingToApply),
            },
    {
        match &self.solved_result {
            Some(r) => Ok(r),
            None => Err(CalibrationError::NothingToApply),
        }
    }

    /// The solution was saved: the run ends as applied.
    pub fn mark_applied(&mut self)
        ensures
            !final(self).active,
            final(self).phase == CalibrationPhase::Applied,
            text_of(final(self).stage_message) == Some("标定结果已应用并保存"@),
            final(self).original_error is None,
            final(self).solved_result == old(self).solved_result,
            final(self).observations == old(self).observations,
            final(self).current_target_index == old(self).current_target_index,
            final(self).camera_source_id == old(self).camera_source_id,
    {
        self.active = false;
        self.phase = CalibrationPhase::Applied;
        self.stage_message = Some(owned("标定结果已应用并保存"));
        self.original_error = None;
    }

    /// Records how a calibration request ended: a failed start fails the run; another
    /// failed request only reports its error; success clears the error.
    pub fn request_finished(&mut self, action: CalibrationAction, error: Option<&str>)
        ensures
            match error {
                Some(m) => if action == CalibrationAction::Start {
                    !final(self).active && final(self).phase == CalibrationPhase::Failed && text_of(
                        final(self).original_error,
                    ) == Some(m@) && text_of(final(self).stage_message) == Some(m@)
                } else {
                    text_of(final(self).original_error) == Some(m@) && final(self).active == old(self).active
                        && final(self).phase == old(self).phase && final(self).stage_message == old(
                        self,
                    ).stage_message
                },
                None => final(self).original_error is None && final(self).active == old(self).active
                    && final(self).phase == old(self).phase && final(self).stage_message == old(
                    self,
                ).stage_message,
            },
            final(self).observations == old(self).observations,
            final(self).solved_result == old(self).solved_result,
            final(self).current_target_index == old(self).current_target_index,
            final(self).run_id == old(self).run_id,
    {
        match error {
            Some(m) => {
                if action == CalibrationAction::Start {
                    self.fail(m);
                } else {
                    self.original_error = Some(owned(m));
                }
            },
            None => {
                self.original_error = None;
            },
        }
    }

    /// Whether a control-mode result confirms the manual mode this run asked for.
    pub fn manual_mode_confirmed(&self, result_request_id: &str) -> (res: bool)
        ensures
            res == (self.phase == CalibrationPhase::Preparing && (self.run_id matches Some(run)
                && result_request_id@ == manual_mode_id(run@))),
    {
        if self.phase != CalibrationPhase::Preparing {
            return false;
        }
        match &self.run_id {
            Some(run) => {
                let expected = manual_mode_request_id(run.as_str());
                str_eq(result_request_id, expected.as_str())
            },
            None => false,
        }
    }
}

/// The id of the sample taken at a pose: the run id (or "calibration") and the pose's
/// one-based number.
pub fn sample_id(run_id: Option<&str>, index: u32) -> (res: String)
    ensures
        res@ == (match run_id {
            Some(r) => r@,
            None => "calibration"@,
        }) + "-sample-"@ + decimal_text(index as nat + 1),
{
    let mut m = match run_id {
        Some(r) => owned(r),
        None => owned("calibration"),
    };
    m.append("-sample-");
    push_decimal(&mut m, index as u64 + 1);
    m
}

/// The joint motion to a calibration pose.
pub struct PoseMotion<T> {
    pub request_id: String,
    pub model_revision: String,
    /// Joint keys with their target positions, in the model's joint order.
    pub joints: Vec<(String, T)>,
}

pub open spec fn position_in<T>(positions: Seq<(String, T)>, key: Seq<char>) -> Option<T>
    decreases positions.len(),
{
    if positions.len() == 0 {
        None
    } else if positions[0].0@ == key {
        Some(positions[0].1)
    } else {
        position_in(positions.drop_first(), key)
    }
}

pub open spec fn joint_at<T>(joints: Seq<(String, T)>, model_joints: Seq<String>, positions: Seq<(String, T)>, k: int) -> bool {
    joints[k].0@ == model_joints[k]@ && position_in(positions, model_joints[k]@) == Some(joints[k].1)
}

fn find_position<T: Copy>(positions: &Vec<(String, T)>, key: &str) -> (res: Option<T>)
    ensures
        res == position_in(positions@, key@),
{
    let mut i: usize = 0;
    assert(positions@.skip(0) =~= positions@);
    while i < positions.len()
        invariant
            i <= positions@.len(),
            position_in(positions@, key@) == position_in(positions@.skip(i as int), key@),
        decreases positions@.len() - i,
    {
        assert(positions@.skip(i as int).drop_first() =~= positions@.skip(i as int + 1));
        if str_eq(positions[i].0.as_str(), key) {
            return Some(positions[i].1);
        }
        i += 1;
    }
    assert(positions@.skip(i as int).len() == 0);
    None
}

/// The motion to a calibration pose: the model's joints in the model's order, each at
/// the pose's position for it (the first model joint the pose lacks is an error), under
/// the id `{run}-{pose key}`.
pub fn calibration_motion_request<T: Copy>(
    model_joints: &Vec<String>,
    model_revision: &str,
    target_key: &str,
    target_positions: &Vec<(String, T)>,
    run_id: &str,
) -> (res: Result<PoseMotion<T>, CalibrationError>)
    ensures
        match res {
            Ok(m) => {
                &&& m.request_id@ == run_id@ + "-"@ + target_key@
                &&& m.model_revision@ == model_revision@
                &&& m.joints@.len() == model_joints@.len()
                &&& forall|i: int| 0 <= i < model_joints@.len() ==> #[trigger] m.joints@[i].0@
                    == model_joints@[i]@ && position_in(target_positions@, model_joints@[i]@) == Some(
                    m.joints@[i].1,
                )
            },
            Err(CalibrationError::MissingJoint(key)) => exists|i: int|
                0 <= i < model_joints@.len() && #[trigger] model_joints@[i]@ == key@ && position_in(
                    target_positions@,
                    key@,
                ) is None && forall|j: int| 0 <= j < i ==> position_in(target_positions@, #[trigger] model_joints@[j]@) is Some,
            Err(_) => false,
        },
{
    let mut joints: Vec<(String, T)> = Vec::new();
    let mut i: usize = 0;
    while i < model_joints.len()
        invariant
            i <= model_joints@.len(),
            joints@.len() == i,
            forall|k: int| 0 <= k < i ==> #[trigger] joint_at(joints@, model_joints@, target_positions@, k),
        decreases model_joints@.len() - i,
    {
        match find_position(target_positions, model_joints[i].as_str()) {
            Some(p) => {
                let ghost before = joints@;
                let name = model_joints[i].clone();
                assert(name@ == model_joints@[i as int]@);
                joints.push((name, p));
                assert(joints@ == before.push((name, p)));
                assert forall|k: int| 0 <= k < i + 1 implies #[trigger] joint_at(
                    joints@,
                    model_joints@,
                    target_positions@,
                    k,
                ) by {
                    if k < i {
                        assert(joint_at(before, model_joints@, target_positions@, k));
                        assert(joints@[k] == before[k]);
                    }
                }
            },
            None => {
                proof {
                    assert forall|j: int| 0 <= j < i implies position_in(target_positions@, #[trigger] model_joints@[j]@) is Some by {
                        assert(joint_at(joints@, model_joints@, target_positions@, j));
                    }
                }
                return Err(CalibrationError::MissingJoint(model_joints[i].clone()));
            },
        }
        i += 1;
    }
    assert forall|k: int| 0 <= k < model_joints@.len() implies #[trigger] joints@[k].0@ == model_joints@[k]@
        && position_in(target_positions@, model_joints@[k]@) == Some(joints@[k].1) by {
        assert(joint_at(joints@, model_joints@, target_positions@, k));
    }
    let mut id = owned(run_id);
    id.append("-");
    id.append(target_key);
    let motion = PoseMotion { request_id: id, model_revision: owned(model_revision), joints };
    assert(forall|k: int| 0 <= k < model_joints@.len() ==> #[trigger] motion.joints@[k].0@ == model_joints@[k]@
        && position_in(target_positions@, model_joints@[k]@) == Some(motion.joints@[k].1));
    Ok(motion)
}

/// A run never starts without a calibration board or a test gripper: with no tool id the
/// start is refused, and once every earlier check passes (the source is the active one,
/// the model is known, matches and has calibration poses, and a board is given) the
/// refusal is the missing tool.
pub proof fn a_run_needs_its_board_and_tool<B>(
    host: CalibrationHost,
    request: StartRequest<B>,
    current_source: Option<&str>,
    source_active: bool,
    model: Option<&ModelTargets>,
)
    ensures
        request.calibration_tool_id is None ==> start_refusal(host, request, current_source, source_active, model) is Some,
        request.board is None ==> start_refusal(host, request, current_source, source_active, model) is Some,
        ({
            &&& request.calibration_tool_id is None
            &&& current_source is Some
            &&& start_source(request, current_source) == text_of_str(current_source)
            &&& source_active
            &&& model is Some
            &&& (request.robot_model_revision matches Some(r) ==> r@ == model->0.model_revision@)
            &&& model->0.target_count > 0
            &&& request.board is Some
        }) ==> start_refusal(host, request, current_source, source_active, model) == Some(CalibrationError::NoTool),
{
}

} // verus!
