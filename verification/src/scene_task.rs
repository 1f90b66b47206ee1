//! The scene node's staged perception tasks: segmentation, 3-D reconstruction and grasp
//! generation run one at a time, each on the exact output of the stage before it, and
//! a result computed on inputs that changed meanwhile is discarded.
use vstd::prelude::*;
use crate::messages::{action_label, action_text, RequestAction, RequestState};
use crate::text::{decimal_text, owned, push_decimal, spec_starts_with, starts_with, str_eq};

verus! {

/// Why a stage request is refused.
#[derive(PartialEq, Eq, Structural, Clone, Copy)]
pub enum StageError {
    /// Another task is running.
    Busy,
    /// Reconstruction was asked for before any segmentation.
    NeedSegmentation,
    /// The request names another segmentation than the current one.
    SegmentationChanged,
    /// Grasps were asked for before any reconstruction.
    NeedReconstruction,
    /// The request names another scene than the current one.
    SceneChanged,
    /// The grasp target is not an object of the current scene.
    NoTarget,
    /// The action is not a perception stage.
    NotAStage,
    /// Segmentation was asked for before any camera frame arrived.
    NoFrame,
}

pub open spec fn stage_error_text(error: StageError) -> Seq<char> {
    match error {
        StageError::Busy => "感知任务正在执行"@,
        StageError::NeedSegmentation => "请先运行分割"@,
        StageError::SegmentationChanged => "分割结果已改变，请使用当前分割序号"@,
        StageError::NeedReconstruction => "请先进行三维定位"@,
        StageError::SceneChanged => "三维场景已改变，请使用当前场景序号"@,
        StageError::NoTarget => "请选择当前场景中的一个抓取目标"@,
        StageError::NotAStage => "不是感知计算动作"@,
        StageError::NoFrame => "尚未收到相机帧"@,
    }
}

impl StageError {
    /// The message reported for the refusal.
    pub fn message(&self) -> (res: String)
        ensures
            res@ == stage_error_text(*self),
    {
        match self {
            StageError::Busy => owned("感知任务正在执行"),
            StageError::NeedSegmentation => owned("请先运行分割"),
            StageError::SegmentationChanged => owned("分割结果已改变，请使用当前分割序号"),
            StageError::NeedReconstruction => owned("请先进行三维定位"),
            StageError::SceneChanged => owned("三维场景已改变，请使用当前场景序号"),
            StageError::NoTarget => owned("请选择当前场景中的一个抓取目标"),
            StageError::NotAStage => owned("不是感知计算动作"),
            StageError::NoFrame => owned("尚未收到相机帧"),
        }
    }
}

/// The latest reconstructed scene as the stages see it: its sequence number and the ids
/// of its objects.
pub struct SceneSummary {
    pub sequence: u64,
    pub object_ids: Vec<String>,
}

pub open spec fn object_ids(scene: SceneSummary) -> Seq<Seq<char>> {
    scene.object_ids@.map_values(|id: String| id@)
}

/// Whether a stage request may run on the current outputs: segmentation always may;
/// reconstruction needs the current segmentation by sequence; grasp generation needs
/// the current scene by sequence and one of its objects as target.
pub open spec fn stage_input_spec(
    action: RequestAction,
    input_sequence: Option<u64>,
    object_id: Option<Seq<char>>,
    segmented: Option<u64>,
    scene: Option<SceneSummary>,
) -> Result<(), StageError> {
    match action {
        RequestAction::Refresh => Ok(()),
        RequestAction::Reconstruct => match segmented {
            None => Err(StageError::NeedSegmentation),
            Some(s) => if input_sequence == Some(s) {
                Ok(())
            } else {
                Err(StageError::SegmentationChanged)
            },
        },
        RequestAction::GenerateGrasps => match scene {
            None => Err(StageError::NeedReconstruction),
            Some(sc) => if input_sequence != Some(sc.sequence) {
                Err(StageError::SceneChanged)
            } else if object_id is Some && object_ids(sc).contains(object_id->0) {
                Ok(())
            } else {
                Err(StageError::NoTarget)
            },
        },
        _ => Err(StageError::NotAStage),
    }
}

pub open spec fn opt_text(value: Option<&str>) -> Option<Seq<char>> {
    match value {
        Some(s) => Some(s@),
        None => None,
    }
}

fn contains_id(ids: &Vec<String>, id: &str) -> (res: bool)
    ensures
        res == ids@.map_values(|s: String| s@).contains(id@),
{
    let ghost v = ids@.map_values(|s: String| s@);
    let mut i: usize = 0;
    while i < ids.len()
        invariant
            i <= ids@.len(),
            v == ids@.map_values(|s: String| s@),
            forall|k: int| 0 <= k < i ==> v[k] != id@,
        decreases ids@.len() - i,
    {
        if str_eq(ids[i].as_str(), id) {
            assert(v[i as int] == id@);
            return true;
        }
        i += 1;
    }
    false
}

/// Checks that a stage request may run on the current segmentation and scene.
pub fn validate_stage_input(
    action: RequestAction,
    input_sequence: Option<u64>,
    object_id: Option<&str>,
    segmented: Option<u64>,
    scene: Option<&SceneSummary>,
) -> (res: Result<(), StageError>)
    ensures
        res == stage_input_spec(
            action,
            input_sequence,
            opt_text(object_id),
            segmented,
            match scene {
                Some(s) => Some(*s),
                None => None,
            },
        ),
{
    match action {
        RequestAction::Refresh => Ok(()),
        RequestAction::Reconstruct => match segmented {
            None => Err(StageError::NeedSegmentation),
            Some(s) => {
                if input_sequence == Some(s) {
                    Ok(())
                } else {
                    Err(StageError::SegmentationChanged)
                }
            },
        },
        RequestAction::GenerateGrasps => match scene {
            None => Err(StageError::NeedReconstruction),
            Some(sc) => {
                if input_sequence != Some(sc.sequence) {
                    return Err(StageError::SceneChanged);
                }
                match object_id {
                    Some(id) => {
                        if contains_id(&sc.object_ids, id) {
                            Ok(())
                        } else {
                            Err(StageError::NoTarget)
                        }
                    },
                    None => Err(StageError::NoTarget),
                }
            },
        },
        _ => Err(StageError::NotAStage),
    }
}

/// What a finished stage produced.
pub enum StageOutput {
    /// A segmentation, with the sequence number it was given.
    Segmented(u64),
    /// A reconstructed scene.
    Reconstructed(SceneSummary),
    /// The scene with grasp candidates attached.
    Grasps(SceneSummary),
}

/// The work a started task must do, and what identifies its result.
pub struct TaskTicket {
    pub request_id: String,
    pub action: RequestAction,
    /// The scene sequence the task started from.
    pub input_sequence: u64,
    /// The sequence its output will carry.
    pub output_sequence: u64,
}

/// The stage bookkeeping of the scene node.
pub struct SceneTasks {
    /// Counts every change of the scene's inputs and outputs.
    pub sequence: u64,
    /// The selected camera (streaming), whose frames are accepted.
    pub source_id: Option<String>,
    /// The config version of the camera state last seen.
    pub camera_config_version: Option<u64>,
    /// The sequence of the latest accepted camera frame.
    pub latest_frame: Option<u64>,
    /// The sequence of the current segmentation.
    pub segmented: Option<u64>,
    /// The current reconstructed scene.
    pub scene: Option<SceneSummary>,
    pub task_request_id: Option<String>,
    pub task_state: RequestState,
    pub task_action: Option<RequestAction>,
    pub last_error: Option<String>,
}

pub open spec fn stale_result_text() -> Seq<char> {
    "感知任务运行期间相机、标定、模型或配置已改变，已丢弃旧结果"@
}

pub open spec fn opt_string_view(value: Option<String>) -> Option<Seq<char>> {
    match value {
        Some(s) => Some(s@),
        None => None,
    }
}

impl SceneTasks {
    /// No camera, no outputs, no task.
    pub fn new() -> (res: Self)
        ensures
            res.sequence == 0,
            res.source_id is None,
            res.camera_config_version is None,
            res.latest_frame is None,
            res.segmented is None,
            res.scene is None,
            res.task_request_id is None,
            res.task_state == RequestState::Idle,
            res.task_action is None,
            res.last_error is None,
    {
        SceneTasks {
            sequence: 0,
            source_id: None,
            camera_config_version: None,
            latest_frame: None,
            segmented: None,
            scene: None,
            task_request_id: None,
            task_state: RequestState::Idle,
            task_action: None,
            last_error: None,
        }
    }

    /// Whether a stage may start now: no task is running, its inputs are current, and
    /// segmentation has a camera frame to wait for.
    pub fn check_start(&self, action: RequestAction, input_sequence: Option<u64>, object_id: Option<&str>) -> (res: Result<
        (),
        StageError,
    >)
        ensures
            self.task_state == RequestState::Executing ==> res == Err::<(), StageError>(StageError::Busy),
            self.task_state != RequestState::Executing ==> res == match stage_input_spec(
                action,
                input_sequence,
                opt_text(object_id),
                self.segmented,
                self.scene,
            ) {
                Err(e) => Err(e),
                Ok(()) => if action == RequestAction::Refresh && self.latest_frame is None {
                    Err(StageError::NoFrame)
                } else {
                    Ok(())
                },
            },
    {
        if self.task_state == RequestState::Executing {
            return Err(StageError::Busy);
        }
        let scene = match &self.scene {
            Some(s) => Some(s),
            None => None,
        };
        match validate_stage_input(action, input_sequence, object_id, self.segmented, scene) {
            Err(e) => Err(e),
            Ok(()) => {
                if action == RequestAction::Refresh && self.latest_frame.is_none() {
                    Err(StageError::NoFrame)
                } else {
                    Ok(())
                }
            },
        }
    }

    /// Marks a checked stage as running and hands out its ticket: the task starts from
    /// the current sequence and its output takes the next one.
    pub fn begin(&mut self, request_id: &str, action: RequestAction) -> (res: TaskTicket)
        requires
            old(self).sequence < u64::MAX,
        ensures
            res.request_id@ == request_id@,
            res.action == action,
            res.input_sequence == old(self).sequence,
            res.output_sequence == old(self).sequence + 1,
            final(self).task_request_id matches Some(id) && id@ == request_id@,
            final(self).task_action == Some(action),
            final(self).task_state == RequestState::Executing,
            final(self).last_error is None,
            final(self).sequence == old(self).sequence,
            final(self).source_id == old(self).source_id,
            final(self).camera_config_version == old(self).camera_config_version,
            final(self).latest_frame == old(self).latest_frame,
            final(self).segmented == old(self).segmented,
            final(self).scene == old(self).scene,
    {
        self.task_request_id = Some(owned(request_id));
        self.task_action = Some(action);
        self.task_state = RequestState::Executing;
        self.last_error = None;
        TaskTicket {
            request_id: owned(request_id),
            action,
            input_sequence: self.sequence,
            output_sequence: self.sequence + 1,
        }
    }

    /// Records a refused stage request; a running task keeps its state.
    pub fn refuse(&mut self, message: String)
        ensures
            old(self).task_state != RequestState::Executing ==> final(self).task_state == RequestState::Failed
                && final(self).last_error == Some(message),
            old(self).task_state == RequestState::Executing ==> *final(self) == *old(self),
            final(self).sequence == old(self).sequence,
            final(self).task_request_id == old(self).task_request_id,
            final(self).segmented == old(self).segmented,
            final(self).scene == old(self).scene,
            final(self).latest_frame == old(self).latest_frame,
            final(self).source_id == old(self).source_id,
            final(self).camera_config_version == old(self).camera_config_version,
            final(self).task_action == old(self).task_action,
    {
        if self.task_state != RequestState::Executing {
            self.task_state = RequestState::Failed;
            self.last_error = Some(message);
        }
    }

    /// Applies a finished task's result, unless the scene's inputs changed since the task
    /// started (its input sequence is no longer current): then the result is dropped
    /// and the task fails. Returns the error reported with the result, if any.
    pub fn finish(&mut self, input_sequence: u64, result: Result<StageOutput, String>) -> (res: Option<String>)
        ensures
            final(self).task_request_id is None,
            final(self).source_id == old(self).source_id,
            final(self).camera_config_version == old(self).camera_config_version,
            final(self).latest_frame == old(self).latest_frame,
            final(self).task_action == old(self).task_action,
            opt_string_view(final(self).last_error) == opt_string_view(res),
            old(self).sequence != input_sequence ==> {
                &&& res matches Some(m) && m@ == stale_result_text()
                &&& final(self).task_state == RequestState::Failed
                &&& final(self).sequence == old(self).sequence
                &&& final(self).segmented == old(self).segmented
                &&& final(self).scene == old(self).scene
            },
            old(self).sequence == input_sequence ==> match result {
                Err(e) => {
                    &&& res == Some(e)
                    &&& final(self).task_state == RequestState::Failed
                    &&& final(self).sequence == old(self).sequence
                    &&& final(self).segmented == old(self).segmented
                    &&& final(self).scene == old(self).scene
                },
                Ok(StageOutput::Segmented(s)) => {
                    &&& res is None
                    &&& final(self).task_state == RequestState::Succeeded
                    &&& final(self).sequence == s
                    &&& final(self).segmented == Some(s)
                    &&& final(self).scene is None
                },
                Ok(StageOutput::Reconstructed(scene)) => {
                    &&& res is None
                    &&& final(self).task_state == RequestState::Succeeded
                    &&& final(self).sequence == scene.sequence
                    &&& final(self).segmented == old(self).segmented
                    &&& final(self).scene == Some(scene)
                },
                Ok(StageOutput::Grasps(scene)) => {
                    &&& res is None
                    &&& final(self).task_state == RequestState::Succeeded
                    &&& final(self).sequence == scene.sequence
                    &&& final(self).segmented == old(self).segmented
                    &&& final(self).scene == Some(scene)
                },
            },
    {
        let error = if self.sequence != input_sequence {
            Some(owned("感知任务运行期间相机、标定、模型或配置已改变，已丢弃旧结果"))
        } else {
            match result {
                Err(e) => Some(e),
                Ok(StageOutput::Segmented(s)) => {
                    self.scene = None;
                    self.sequence = s;
                    self.segmented = Some(s);
                    None
                },
                Ok(StageOutput::Reconstructed(scene)) => {
                    self.sequence = scene.sequence;
                    self.scene = Some(scene);
                    None
                },
                Ok(StageOutput::Grasps(scene)) => {
                    self.sequence = scene.sequence;
                    self.scene = Some(scene);
                    None
                },
            }
        };
        self.task_state = if error.is_none() {
            RequestState::Succeeded
        } else {
            RequestState::Failed
        };
        self.last_error = match &error {
            Some(e) => Some(e.clone()),
            None => None,
        };
        self.task_request_id = None;
        error
    }

    /// Drops the camera input and every output (the camera, its calibration or the
    /// configuration changed); a running task keeps running but its result will be stale.
    pub fn clear_output(&mut self)
        requires
            old(self).sequence < u64::MAX,
        ensures
            final(self).sequence == old(self).sequence + 1,
            final(self).latest_frame is None,
            final(self).segmented is None,
            final(self).scene is None,
            old(self).task_state == RequestState::Executing ==> final(self).task_state == RequestState::Executing
                && final(self).task_request_id == old(self).task_request_id,
            old(self).task_state != RequestState::Executing ==> final(self).task_state == RequestState::Idle
                && final(self).task_request_id is None,
            final(self).source_id == old(self).source_id,
            final(self).camera_config_version == old(self).camera_config_version,
            final(self).task_action == old(self).task_action,
            final(self).last_error == old(self).last_error,
    {
        self.latest_frame = None;
        self.segmented = None;
        self.scene = None;
        if self.task_state != RequestState::Executing {
            self.task_request_id = None;
            self.task_state = RequestState::Idle;
        }
        self.sequence = self.sequence + 1;
    }

    /// Drops the segmentation and scene (the robot model or the settings changed).
    pub fn clear_scene(&mut self)
        requires
            old(self).sequence < u64::MAX,
        ensures
            final(self).sequence == old(self).sequence + 1,
            final(self).segmented is None,
            final(self).scene is None,
            final(self).latest_frame == old(self).latest_frame,
            final(self).source_id == old(self).source_id,
            final(self).camera_config_version == old(self).camera_config_version,
            final(self).task_state == old(self).task_state,
            final(self).task_request_id == old(self).task_request_id,
            final(self).task_action == old(self).task_action,
            final(self).last_error == old(self).last_error,
    {
        self.segmented = None;
        self.scene = None;
        self.sequence = self.sequence + 1;
    }

    /// Accepts a camera frame only from the selected camera and only if it is newer
    /// than the latest accepted one.
    pub fn accept_frame(&mut self, source_id: &str, frame_sequence: u64) -> (accepted: bool)
        ensures
            accepted == ((final(self).source_id matches Some(s) && s@ == source_id@) && match old(
                self,
            ).latest_frame {
                Some(previous) => previous < frame_sequence,
                None => true,
            }),
            accepted ==> final(self).latest_frame == Some(frame_sequence),
            !accepted ==> *final(self) == *old(self),
            final(self).source_id == old(self).source_id,
            final(self).sequence == old(self).sequence,
            final(self).segmented == old(self).segmented,
            final(self).scene == old(self).scene,
            final(self).task_state == old(self).task_state,
            final(self).task_request_id == old(self).task_request_id,
            final(self).task_action == old(self).task_action,
            final(self).last_error == old(self).last_error,
            final(self).camera_config_version == old(self).camera_config_version,
    {
        let selected = match &self.source_id {
            Some(s) => str_eq(s.as_str(), source_id),
            None => false,
        };
        if !selected {
            return false;
        }
        let newer = match self.latest_frame {
            Some(previous) => previous < frame_sequence,
            None => true,
        };
        if newer {
            self.latest_frame = Some(frame_sequence);
        }
        newer
    }

    /// Follows the camera node: frames are taken from its selected source while it
    /// streams. When the active source or the camera's configuration changes, all
    /// outputs are dropped; returns whether that happened.
    pub fn observe_camera_state(&mut self, streaming: bool, selected_source_id: Option<&str>, config_version: u64) -> (changed: bool)
        requires
            old(self).sequence < u64::MAX,
        ensures
            ({
                let active = if streaming {
                    opt_text(selected_source_id)
                } else {
                    None
                };
                &&& changed == (opt_string_view(old(self).source_id) != active || (old(
                    self,
                ).camera_config_version matches Some(v) && v != config_version))
                &&& opt_string_view(final(self).source_id) == active
            }),
            final(self).camera_config_version == Some(config_version),
            changed ==> {
                &&& final(self).sequence == old(self).sequence + 1
                &&& final(self).latest_frame is None
                &&& final(self).segmented is None
                &&& final(self).scene is None
                &&& (old(self).task_state != RequestState::Executing ==> final(self).task_state
                    == RequestState::Idle && final(self).task_request_id is None)
                &&& (old(self).task_state == RequestState::Executing ==> final(self).task_state
                    == RequestState::Executing && final(self).task_request_id == old(self).task_request_id)
            },
            !changed ==> {
                &&& final(self).sequence == old(self).sequence
                &&& final(self).latest_frame == old(self).latest_frame
                &&& final(self).segmented == old(self).segmented
                &&& final(self).scene == old(self).scene
                &&& final(self).task_state == old(self).task_state
                &&& final(self).task_request_id == old(self).task_request_id
            },
            final(self).task_action == old(self).task_action,
            final(self).last_error == old(self).last_error,
    {
        let active: Option<String> = if streaming {
            match selected_source_id {
                Some(s) => Some(owned(s)),
                None => None,
            }
        } else {
            None
        };
        let same_source = match (&self.source_id, &active) {
            (Some(a), Some(b)) => str_eq(a.as_str(), b.as_str()),
            (None, None) => true,
            _ => false,
        };
        let version_changed = match self.camera_config_version {
            Some(v) => v != config_version,
            None => false,
        };
        let changed = !same_source || version_changed;
        self.source_id = active;
        self.camera_config_version = Some(config_version);
        if changed {
            self.clear_output();
        }
        changed
    }
}

/// How objects are prompted for: by the configured class names, or by a visual prompt
/// (whose content the task logic passes on unread).
pub enum Prompt<V> {
    Text,
    Visual(V),
}

/// The persisted scene settings. `D` is the grasp collision distance, a
/// floating-point value checked outside.
pub struct SceneSettings<V, D> {
    pub config_version: u64,
    pub enabled: bool,
    pub model: Option<String>,
    pub classes: Vec<String>,
    pub prompt: Prompt<V>,
    pub placement_labels: Vec<String>,
    pub grasp_collision_distance: D,
}

/// A requested change of the settings; `distance_valid` says whether the requested
/// distance (if any) is a non-negative finite number.
pub struct SettingsChange<V, D> {
    pub model: Option<String>,
    pub classes: Option<Vec<String>>,
    pub prompt: Option<Prompt<V>>,
    pub placement_labels: Option<Vec<String>>,
    pub grasp_collision_distance: Option<D>,
    pub distance_valid: bool,
}

/// Why a settings request is refused.
pub enum SettingsError {
    UnknownModel(String),
    InvalidDistance,
    UnsupportedAction(RequestAction),
}

pub open spec fn settings_error_text(error: SettingsError) -> Seq<char> {
    match error {
        SettingsError::UnknownModel(m) => "未知分割模型 "@ + m@,
        SettingsError::InvalidDistance => "点云碰撞邻近距离必须是非负有限数值"@,
        SettingsError::UnsupportedAction(a) => "感知请求不支持动作 "@ + action_text(a),
    }
}

impl SettingsError {
    /// The message reported for the refusal.
    pub fn message(&self) -> (res: String)
        ensures
            res@ == settings_error_text(*self),
    {
        match self {
            SettingsError::UnknownModel(m) => {
                let mut s = owned("未知分割模型 ");
                s.append(m.as_str());
                s
            },
            SettingsError::InvalidDistance => owned("点云碰撞邻近距离必须是非负有限数值"),
            SettingsError::UnsupportedAction(a) => {
                let mut s = owned("感知请求不支持动作 ");
                s.append(action_label(*a));
                s
            },
        }
    }
}

pub open spec fn names_of(values: Seq<String>) -> Seq<Seq<char>> {
    values.map_values(|s: String| s@)
}

/// Starting a stage enables a disabled node: the settings become enabled and count a new
/// config version, to be written out before the stage runs. Returns whether they
/// changed; enabled settings stay as they are.
pub fn enable_for_start<V, D>(settings: &mut SceneSettings<V, D>) -> (changed: bool)
    requires
        !old(settings).enabled ==> old(settings).config_version < u64::MAX,
    ensures
        changed == !old(settings).enabled,
        final(settings).enabled,
        final(settings).config_version == if changed {
            old(settings).config_version + 1
        } else {
            old(settings).config_version as int
        },
        final(settings).model == old(settings).model,
        final(settings).classes == old(settings).classes,
        final(settings).prompt == old(settings).prompt,
        final(settings).placement_labels == old(settings).placement_labels,
        final(settings).grasp_collision_distance == old(settings).grasp_collision_distance,
{
    if settings.enabled {
        return false;
    }
    settings.enabled = true;
    settings.config_version = settings.config_version + 1;
    true
}

/// What a settings request does: `Apply` takes the requested model (which must be a
/// known one), classes (which restore text prompting), prompt, placement labels and
/// distance (which must be valid) and enables the node; `Cancel` and `Disconnect`
/// disable it; `Snapshot` leaves the settings alone. Each change that is kept counts
/// as a new config version.
pub fn apply_settings<V, D>(
    current: SceneSettings<V, D>,
    known_models: &Vec<String>,
    action: RequestAction,
    change: SettingsChange<V, D>,
) -> (res: Result<SceneSettings<V, D>, SettingsError>)
    requires
        current.config_version < u64::MAX,
    ensures
        action == RequestAction::Apply ==> match res {
            Err(SettingsError::UnknownModel(m)) => change.model matches Some(r) && r@ == m@ && !names_of(
                known_models@,
            ).contains(m@),
            Err(SettingsError::InvalidDistance) => (change.model matches Some(r) ==> names_of(
                known_models@,
            ).contains(r@)) && change.grasp_collision_distance is Some && !change.distance_valid,
            Err(SettingsError::UnsupportedAction(_)) => false,
            Ok(next) => {
                &&& (change.model matches Some(r) ==> names_of(known_models@).contains(r@))
                &&& (change.grasp_collision_distance is Some ==> change.distance_valid)
                &&& next.enabled
                &&& next.config_version == current.config_version + 1
                &&& next.model == match change.model {
                    Some(m) => Some(m),
                    None => current.model,
                }
                &&& next.classes == match change.classes {
                    Some(c) => c,
                    None => current.classes,
                }
                &&& next.prompt == match change.prompt {
                    Some(p) => p,
                    None => if change.classes is Some {
                        Prompt::Text
                    } else {
                        current.prompt
                    },
                }
                &&& next.placement_labels == match change.placement_labels {
                    Some(l) => l,
                    None => current.placement_labels,
                }
                &&& next.grasp_collision_distance == match change.grasp_collision_distance {
                    Some(d) => d,
                    None => current.grasp_collision_distance,
                }
            },
        },
        (action == RequestAction::Cancel || action == RequestAction::Disconnect) ==> (res matches Ok(next)
            && !next.enabled && next.config_version == current.config_version + 1 && next.model
            == current.model && next.classes == current.classes && next.prompt == current.prompt
            && next.placement_labels == current.placement_labels && next.grasp_collision_distance
            == current.grasp_collision_distance),
        action == RequestAction::Snapshot ==> res == Ok::<SceneSettings<V, D>, SettingsError>(current),
        !(action == RequestAction::Apply || action == RequestAction::Cancel || action
            == RequestAction::Disconnect || action == RequestAction::Snapshot) ==> (res matches Err(
            SettingsError::UnsupportedAction(a),
        ) && a == action),
{
    let mut next = current;
    match action {
        RequestAction::Apply => {
            match change.model {
                Some(m) => {
                    if !contains_id(known_models, m.as_str()) {
                        return Err(SettingsError::UnknownModel(m));
                    }
                    next.model = Some(m);
                },
                None => {},
            }
            match change.classes {
                Some(c) => {
                    next.classes = c;
                    next.prompt = Prompt::Text;
                },
                None => {},
            }
            match change.prompt {
                Some(p) => {
                    next.prompt = p;
                },
                None => {},
            }
            match change.placement_labels {
                Some(l) => {
                    next.placement_labels = l;
                },
                None => {},
            }
            match change.grasp_collision_distance {
                Some(d) => {
                    if !change.distance_valid {
                        return Err(SettingsError::InvalidDistance);
                    }
                    next.grasp_collision_distance = d;
                },
                None => {},
            }
            next.enabled = true;
        },
        RequestAction::Snapshot => {
            return Ok(next);
        },
        RequestAction::Cancel | RequestAction::Disconnect => {
            next.enabled = false;
        },
        _ => {
            return Err(SettingsError::UnsupportedAction(action));
        },
    }
    next.config_version = next.config_version + 1;
    Ok(next)
}

/// Whether the visual prompt is in use: it is configured and the selected model is not
/// one that needs no prompt.
pub fn visual_prompt_active<V>(prompt: &Prompt<V>, model: Option<&str>, prompt_free_models: &Vec<String>) -> (res: bool)
    ensures
        res == (prompt is Visual && !(model matches Some(m) && names_of(prompt_free_models@).contains(m@))),
{
    let free = match model {
        Some(m) => contains_id(prompt_free_models, m),
        None => false,
    };
    match prompt {
        Prompt::Visual(_) => !free,
        Prompt::Text => false,
    }
}

/// Whether an asset outlives clearing the scene: the overlay and the masks belong to the
/// segmentation and go with it.
pub fn kept_after_scene_clear(asset_key: &str) -> (res: bool)
    ensures
        res == !(asset_key@ == "overlay.png"@ || spec_starts_with(asset_key@, "mask-"@)),
{
    !(str_eq(asset_key, "overlay.png") || starts_with(asset_key, "mask-"))
}

/// The asset key of the mask of the `index`-th instance.
pub fn mask_asset_key(index: u64) -> (res: String)
    ensures
        res@ == "mask-"@ + decimal_text(index as nat) + ".png"@,
{
    let mut k = owned("mask-");
    push_decimal(&mut k, index);
    k.append(".png");
    k
}

/// The error for an asset that does not exist yet.
pub fn missing_asset_message(asset_key: &str) -> (res: String)
    ensures
        res@ == "感知资源 "@ + asset_key@ + " 尚未生成"@,
{
    let mut m = owned("感知资源 ");
    m.append(asset_key);
    m.append(" 尚未生成");
    m
}

/// An object of the current scene, as instance summaries read it.
pub struct SceneObject {
    pub object_id: String,
    pub grasp_candidate_count: u64,
}

/// The grasp candidates the scene holds for an instance: those of the first scene
/// object with the instance's id (`as u32`), or 0 when none has it.
pub fn instance_grasp_count(objects: &Vec<SceneObject>, instance_id: &str) -> (res: u32)
    ensures
        match first_object(objects@, instance_id@) {
            Some(i) => res == objects@[i].grasp_candidate_count as u32,
            None => res == 0,
        },
{
    let mut i: usize = 0;
    while i < objects.len()
        invariant
            i <= objects@.len(),
            forall|j: int| 0 <= j < i ==> objects@[j].object_id@ != instance_id@,
        decreases objects@.len() - i,
    {
        if str_eq(objects[i].object_id.as_str(), instance_id) {
            proof {
                let c = choose|c: int| 0 <= c < objects@.len() && objects@[c].object_id@ == instance_id@ && forall|j: int|
                    0 <= j < c ==> objects@[j].object_id@ != instance_id@;
                if c < i {
                    assert(objects@[c].object_id@ != instance_id@);
                }
                if c > i {
                    assert(objects@[i as int].object_id@ != instance_id@);
                }
            }
            return objects[i].grasp_candidate_count as u32;
        }
        i += 1;
    }
    0
}

/// The position of the first object with the id.
pub open spec fn first_object(objects: Seq<SceneObject>, id: Seq<char>) -> Option<int> {
    if exists|i: int| 0 <= i < objects.len() && objects[i].object_id@ == id {
        Some(choose|i: int| 0 <= i < objects.len() && objects[i].object_id@ == id && forall|j: int|
            0 <= j < i ==> objects[j].object_id@ != id)
    } else {
        None
    }
}

} // verus!
