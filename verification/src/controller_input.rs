//! The controller-input node's declarations and rules: the components it reads from SDL
//! gamepads and NOLO controllers, the actions that inputs can be bound to, which
//! bindings are valid, and which sources may provide a pose component.
use vstd::prelude::*;
use crate::messages::{action_label, action_text, RequestAction};
use crate::text::{decimal_text, owned, push_char, push_decimal, str_eq};

verus! {

/// The SDL gamepad axes the node reads.
#[derive(PartialEq, Eq, Structural, Clone, Copy)]
pub enum GamepadAxis {
    LeftX,
    LeftY,
    RightX,
    RightY,
    TriggerLeft,
    TriggerRight,
}

/// The SDL gamepad buttons the node reads.
#[derive(PartialEq, Eq, Structural, Clone, Copy)]
pub enum GamepadButton {
    South,
    East,
    West,
    North,
    Back,
    Guide,
    Start,
    LeftStick,
    RightStick,
    LeftShoulder,
    RightShoulder,
    DPadUp,
    DPadDown,
    DPadLeft,
    DPadRight,
    Misc1,
    Misc2,
    Misc3,
    Misc4,
    Misc5,
    Misc6,
    LeftPaddle1,
    RightPaddle1,
    LeftPaddle2,
    RightPaddle2,
    Touchpad,
}

pub open spec fn sdl_axes_spec() -> Seq<(GamepadAxis, &'static str, &'static str)> {
    seq![
        (GamepadAxis::LeftX, "axis/left_x", "左摇杆横向"),
        (GamepadAxis::LeftY, "axis/left_y", "左摇杆纵向"),
        (GamepadAxis::RightX, "axis/right_x", "右摇杆横向"),
        (GamepadAxis::RightY, "axis/right_y", "右摇杆纵向"),
        (GamepadAxis::TriggerLeft, "axis/left_trigger", "左扳机行程"),
        (GamepadAxis::TriggerRight, "axis/right_trigger", "右扳机行程"),
    ]
}

/// The gamepad axes with their component paths and display names.
pub fn sdl_axes() -> (res: Vec<(GamepadAxis, &'static str, &'static str)>)
    ensures
        res@ == sdl_axes_spec(),
{
    let res = vec![
        (GamepadAxis::LeftX, "axis/left_x", "左摇杆横向"),
        (GamepadAxis::LeftY, "axis/left_y", "左摇杆纵向"),
        (GamepadAxis::RightX, "axis/right_x", "右摇杆横向"),
        (GamepadAxis::RightY, "axis/right_y", "右摇杆纵向"),
        (GamepadAxis::TriggerLeft, "axis/left_trigger", "左扳机行程"),
        (GamepadAxis::TriggerRight, "axis/right_trigger", "右扳机行程"),
    ];
    assert(res@ =~= sdl_axes_spec());
    res
}

pub open spec fn sdl_buttons_spec() -> Seq<(GamepadButton, &'static str, &'static str)> {
    seq![
        (GamepadButton::South, "button/south", "右侧按键组下方按钮"),
        (GamepadButton::East, "button/east", "右侧按键组右方按钮"),
        (GamepadButton::West, "button/west", "右侧按键组左方按钮"),
        (GamepadButton::North, "button/north", "右侧按键组上方按钮"),
        (GamepadButton::Back, "button/back", "返回按钮"),
        (GamepadButton::Guide, "button/guide", "主菜单按钮"),
        (GamepadButton::Start, "button/start", "开始按钮"),
        (GamepadButton::LeftStick, "button/left_stick", "左摇杆按下"),
        (GamepadButton::RightStick, "button/right_stick", "右摇杆按下"),
        (GamepadButton::LeftShoulder, "button/left_shoulder", "左肩键"),
        (GamepadButton::RightShoulder, "button/right_shoulder", "右肩键"),
        (GamepadButton::DPadUp, "button/dpad_up", "方向键上"),
        (GamepadButton::DPadDown, "button/dpad_down", "方向键下"),
        (GamepadButton::DPadLeft, "button/dpad_left", "方向键左"),
        (GamepadButton::DPadRight, "button/dpad_right", "方向键右"),
        (GamepadButton::Misc1, "button/misc1", "附加按钮 1"),
        (GamepadButton::Misc2, "button/misc2", "附加按钮 2"),
        (GamepadButton::Misc3, "button/misc3", "附加按钮 3"),
        (GamepadButton::Misc4, "button/misc4", "附加按钮 4"),
        (GamepadButton::Misc5, "button/misc5", "附加按钮 5"),
        (GamepadButton::Misc6, "button/misc6", "附加按钮 6"),
        (GamepadButton::LeftPaddle1, "button/left_paddle1", "左背键 1"),
        (GamepadButton::RightPaddle1, "button/right_paddle1", "右背键 1"),
        (GamepadButton::LeftPaddle2, "button/left_paddle2", "左背键 2"),
        (GamepadButton::RightPaddle2, "button/right_paddle2", "右背键 2"),
        (GamepadButton::Touchpad, "button/touchpad", "触摸板按下"),
    ]
}

/// The gamepad buttons with their component paths and display names.
pub fn sdl_buttons() -> (res: Vec<(GamepadButton, &'static str, &'static str)>)
    ensures
        res@ == sdl_buttons_spec(),
{
    let res = vec![
        (GamepadButton::South, "button/south", "右侧按键组下方按钮"),
        (GamepadButton::East, "button/east", "右侧按键组右方按钮"),
        (GamepadButton::West, "button/west", "右侧按键组左方按钮"),
        (GamepadButton::North, "button/north", "右侧按键组上方按钮"),
        (GamepadButton::Back, "button/back", "返回按钮"),
        (GamepadButton::Guide, "button/guide", "主菜单按钮"),
        (GamepadButton::Start, "button/start", "开始按钮"),
        (GamepadButton::LeftStick, "button/left_stick", "左摇杆按下"),
        (GamepadButton::RightStick, "button/right_stick", "右摇杆按下"),
        (GamepadButton::LeftShoulder, "button/left_shoulder", "左肩键"),
        (GamepadButton::RightShoulder, "button/right_shoulder", "右肩键"),
        (GamepadButton::DPadUp, "button/dpad_up", "方向键上"),
        (GamepadButton::DPadDown, "button/dpad_down", "方向键下"),
        (GamepadButton::DPadLeft, "button/dpad_left", "方向键左"),
        (GamepadButton::DPadRight, "button/dpad_right", "方向键右"),
        (GamepadButton::Misc1, "button/misc1", "附加按钮 1"),
        (GamepadButton::Misc2, "button/misc2", "附加按钮 2"),
        (GamepadButton::Misc3, "button/misc3", "附加按钮 3"),
        (GamepadButton::Misc4, "button/misc4", "附加按钮 4"),
        (GamepadButton::Misc5, "button/misc5", "附加按钮 5"),
        (GamepadButton::Misc6, "button/misc6", "附加按钮 6"),
        (GamepadButton::LeftPaddle1, "button/left_paddle1", "左背键 1"),
        (GamepadButton::RightPaddle1, "button/right_paddle1", "右背键 1"),
        (GamepadButton::LeftPaddle2, "button/left_paddle2", "左背键 2"),
        (GamepadButton::RightPaddle2, "button/right_paddle2", "右背键 2"),
        (GamepadButton::Touchpad, "button/touchpad", "触摸板按下"),
    ];
    assert(res@ =~= sdl_buttons_spec());
    res
}

pub open spec fn nolo_buttons_spec() -> Seq<(u8, &'static str, &'static str)> {
    seq![
        (0u8, "button/touchpad", "触摸板按下"),
        (1u8, "button/trigger", "扳机"),
        (2u8, "button/menu", "菜单键"),
        (3u8, "button/system", "系统键"),
        (4u8, "button/grip", "侧握键"),
        (5u8, "button/touchpad_touch", "正在触摸触摸板"),
    ]
}

/// The NOLO controller buttons: the bit of the report's button mask, the component path
/// and the display name.
pub fn nolo_buttons() -> (res: Vec<(u8, &'static str, &'static str)>)
    ensures
        res@ == nolo_buttons_spec(),
{
    let res = vec![
        (0u8, "button/touchpad", "触摸板按下"),
        (1u8, "button/trigger", "扳机"),
        (2u8, "button/menu", "菜单键"),
        (3u8, "button/system", "系统键"),
        (4u8, "button/grip", "侧握键"),
        (5u8, "button/touchpad_touch", "正在触摸触摸板"),
    ];
    assert(res@ =~= nolo_buttons_spec());
    res
}

/// Whether an action is a switch or a continuous value.
#[derive(PartialEq, Eq, Structural, Clone, Copy)]
pub enum ActionType {
    Boolean,
    Float,
}

/// The type each known action has (`None` for an unknown action).
pub open spec fn action_type_of(action: Seq<char>) -> Option<ActionType> {
    if action == "start_stop"@ || action == "emergency_stop"@ || action == "primary_tool_open"@ {
        Some(ActionType::Boolean)
    } else if action == "primary_tool"@ || action == "move_forward_back"@ || action == "move_left_right"@
        || action == "move_up_down"@ || action == "front_pitch"@ || action == "horizontal_arc"@ {
        Some(ActionType::Float)
    } else {
        None
    }
}

/// The type of a known action.
pub fn action_type(action: &str) -> (res: Option<ActionType>)
    ensures
        res == action_type_of(action@),
{
    if str_eq(action, "start_stop") || str_eq(action, "emergency_stop") || str_eq(action, "primary_tool_open") {
        Some(ActionType::Boolean)
    } else if str_eq(action, "primary_tool") || str_eq(action, "move_forward_back") || str_eq(
        action,
        "move_left_right",
    ) || str_eq(action, "move_up_down") || str_eq(action, "front_pitch") || str_eq(action, "horizontal_arc") {
        Some(ActionType::Float)
    } else {
        None
    }
}

/// A binding of input components to an action.
pub struct ActionBinding {
    pub action: String,
    pub action_type: ActionType,
    pub source_id: String,
    pub component_paths: Vec<String>,
    pub invert: bool,
}

/// Why a set of bindings is refused.
pub enum BindingError {
    UnknownAction(String),
    TypeMismatch(String),
    StartStopNeedsTwoButtons,
}

pub open spec fn binding_error_text(error: BindingError) -> Seq<char> {
    match error {
        BindingError::UnknownAction(a) => "未知 Action "@ + a@,
        BindingError::TypeMismatch(a) => "Action "@ + a@ + " 类型不匹配"@,
        BindingError::StartStopNeedsTwoButtons => "启动和停止控制必须绑定两个按钮"@,
    }
}

impl BindingError {
    /// The message reported for the refusal.
    pub fn message(&self) -> (res: String)
        ensures
            res@ == binding_error_text(*self),
    {
        match self {
            BindingError::UnknownAction(a) => {
                let mut m = owned("未知 Action ");
                m.append(a.as_str());
                m
            },
            BindingError::TypeMismatch(a) => {
                let mut m = owned("Action ");
                m.append(a.as_str());
                m.append(" 类型不匹配");
                m
            },
            BindingError::StartStopNeedsTwoButtons => owned("启动和停止控制必须绑定两个按钮"),
        }
    }
}

/// What is wrong with one binding, if anything: its action must be known and of the
/// declared type, and start/stop needs exactly two buttons.
pub open spec fn binding_fault(b: ActionBinding) -> Option<BindingError> {
    match action_type_of(b.action@) {
        None => Some(BindingError::UnknownAction(b.action)),
        Some(t) => if b.action_type != t {
            Some(BindingError::TypeMismatch(b.action))
        } else if b.action@ == "start_stop"@ && b.component_paths@.len() != 2 {
            Some(BindingError::StartStopNeedsTwoButtons)
        } else {
            None
        },
    }
}

pub open spec fn binding_ok(b: ActionBinding) -> bool {
    binding_fault(b) is None
}

/// Checks the bindings in order and reports the first fault.
pub fn validate_bindings(bindings: &Vec<ActionBinding>) -> (res: Result<(), BindingError>)
    ensures
        match res {
            Ok(()) => forall|i: int| 0 <= i < bindings@.len() ==> #[trigger] binding_ok(bindings@[i]),
            Err(e) => exists|i: int|
                0 <= i < bindings@.len() && binding_fault(bindings@[i]) == Some(e) && forall|j: int|
                    0 <= j < i ==> #[trigger] binding_ok(bindings@[j]),
        },
{
    let mut i: usize = 0;
    while i < bindings.len()
        invariant
            i <= bindings@.len(),
            forall|j: int| 0 <= j < i ==> #[trigger] binding_ok(bindings@[j]),
        decreases bindings@.len() - i,
    {
        let b = &bindings[i];
        let fault = match action_type(b.action.as_str()) {
            None => Some(BindingError::UnknownAction(b.action.clone())),
            Some(t) => {
                if b.action_type != t {
                    Some(BindingError::TypeMismatch(b.action.clone()))
                } else if str_eq(b.action.as_str(), "start_stop") && b.component_paths.len() != 2 {
                    Some(BindingError::StartStopNeedsTwoButtons)
                } else {
                    None
                }
            },
        };
        match fault {
            Some(e) => {
                assert(binding_fault(bindings@[i as int]) == Some(e));
                return Err(e);
            },
            None => {},
        }
        i += 1;
    }
    Ok(())
}

/// A binding of an action's feedback to an output of a source.
pub struct FeedbackBinding {
    pub action: String,
    pub source_id: String,
    pub capability_path: String,
}

/// The source of the built-in virtual feedback target.
pub open spec fn virtual_feedback_source() -> Seq<char> {
    "virtual-feedback"@
}

/// The capability of the built-in virtual feedback target.
pub open spec fn virtual_feedback_capability() -> Seq<char> {
    "feedback/virtual"@
}

/// Whether a feedback binding targets the built-in virtual feedback (always applicable,
/// whatever devices are connected).
pub fn is_virtual_feedback(binding: &FeedbackBinding) -> (res: bool)
    ensures
        res == (binding.source_id@ == virtual_feedback_source() && binding.capability_path@
            == virtual_feedback_capability()),
{
    str_eq(binding.source_id.as_str(), "virtual-feedback") && str_eq(binding.capability_path.as_str(), "feedback/virtual")
}

/// The parts of a pose a source can provide.
#[derive(PartialEq, Eq, Structural, Clone, Copy)]
pub enum PoseComponent {
    Position,
    Orientation,
}

/// What a source declares it can provide.
pub struct SourceCapabilities {
    pub position_capable: bool,
    pub orientation_capable: bool,
}

/// Whether the source declares the pose component.
pub fn supports_pose_component(source: &SourceCapabilities, component: PoseComponent) -> (res: bool)
    ensures
        res == match component {
            PoseComponent::Position => source.position_capable,
            PoseComponent::Orientation => source.orientation_capable,
        },
{
    match component {
        PoseComponent::Position => source.position_capable,
        PoseComponent::Orientation => source.orientation_capable,
    }
}

/// A feedback output a source offers.
pub struct FeedbackCapability {
    pub path: String,
    pub localized_name: Option<String>,
}

pub open spec fn capability_view(c: FeedbackCapability) -> (Seq<char>, Option<Seq<char>>) {
    (c.path@, match c.localized_name {
        Some(n) => Some(n@),
        None => None,
    })
}

pub open spec fn sdl_feedback_spec(has_trigger_feedback: bool, has_controller_rumble: bool) -> Seq<
    (Seq<char>, Option<Seq<char>>),
> {
    (if has_trigger_feedback {
        seq![
            ("feedback/trigger_left"@, Some("左扳机力度反馈"@)),
            ("feedback/trigger_right"@, Some("右扳机力度反馈"@)),
        ]
    } else {
        Seq::empty()
    }) + (if has_controller_rumble {
        seq![("feedback/rumble"@, Some("手柄振动"@))]
    } else {
        Seq::empty()
    })
}

fn capability(path: &str, name: &str) -> (res: FeedbackCapability)
    ensures
        capability_view(res) == (path@, Some(name@)),
{
    FeedbackCapability { path: owned(path), localized_name: Some(owned(name)) }
}

/// The feedback outputs of a gamepad: each trigger's force feedback, as two separately
/// bindable outputs, when it has trigger feedback; its rumble when it has one.
pub fn sdl_feedback_capabilities(has_trigger_feedback: bool, has_controller_rumble: bool) -> (res: Vec<
    FeedbackCapability,
>)
    ensures
        res@.map_values(|c: FeedbackCapability| capability_view(c)) == sdl_feedback_spec(
            has_trigger_feedback,
            has_controller_rumble,
        ),
{
    let mut res: Vec<FeedbackCapability> = Vec::new();
    if has_trigger_feedback {
        res.push(capability("feedback/trigger_left", "左扳机力度反馈"));
        res.push(capability("feedback/trigger_right", "右扳机力度反馈"));
    }
    if has_controller_rumble {
        res.push(capability("feedback/rumble", "手柄振动"));
    }
    assert(res@.map_values(|c: FeedbackCapability| capability_view(c)) =~= sdl_feedback_spec(
        has_trigger_feedback,
        has_controller_rumble,
    ));
    res
}

/// The schema version of the node's persisted configuration.
pub fn config_schema_version() -> (res: u32)
    ensures
        res == 2,
{
    2
}

/// `a - b`, or 0 when `b` is larger (`u64::saturating_sub`).
pub open spec fn sat_sub(a: u64, b: u64) -> u64 {
    if a >= b {
        (a - b) as u64
    } else {
        0
    }
}

/// The per-source stream counters (the observed rate, a floating-point value, is kept
/// beside them).
pub struct StreamDiagnostics {
    pub received_frames: u64,
    pub sequence_gaps: u64,
    pub last_source_time_ns: Option<i64>,
    pub last_received_time_ns: Option<i64>,
}

impl StreamDiagnostics {
    /// No sample yet.
    pub fn new() -> (res: Self)
        ensures
            res.received_frames == 0 && res.sequence_gaps == 0 && res.last_source_time_ns is None
                && res.last_received_time_ns is None,
    {
        StreamDiagnostics { received_frames: 0, sequence_gaps: 0, last_source_time_ns: None, last_received_time_ns: None }
    }

    /// Counts a sample: every sample is received; sequence numbers skipped since the
    /// previous sample of the source count as gaps.
    pub fn record_sample(&mut self, previous_sequence: Option<u64>, sequence: u64, source_time_ns: i64, received_time_ns: i64)
        requires
            old(self).received_frames < u64::MAX,
            previous_sequence matches Some(p) ==> p < u64::MAX && old(self).sequence_gaps + sat_sub(
                sequence,
                (p + 1) as u64,
            ) <= u64::MAX,
        ensures
            final(self).received_frames == old(self).received_frames + 1,
            final(self).sequence_gaps == old(self).sequence_gaps + match previous_sequence {
                Some(p) => sat_sub(sequence, (p + 1) as u64),
                None => 0,
            },
            final(self).last_source_time_ns == Some(source_time_ns),
            final(self).last_received_time_ns == Some(received_time_ns),
    {
        self.received_frames = self.received_frames + 1;
        self.last_source_time_ns = Some(source_time_ns);
        self.last_received_time_ns = Some(received_time_ns);
        match previous_sequence {
            Some(p) => {
                self.sequence_gaps = self.sequence_gaps + sequence.saturating_sub(p + 1);
            },
            None => {},
        }
    }
}

/// The selected pose source for one pose component.
pub struct PoseSourceSelection {
    pub driver_id: String,
    pub device_id: String,
    pub source_id: String,
}

/// Whether a source feeds the published frames: it is a selected pose source or an
/// action binding reads it.
pub fn source_relevant(
    source_id: &str,
    position: Option<&PoseSourceSelection>,
    orientation: Option<&PoseSourceSelection>,
    bindings: &Vec<ActionBinding>,
) -> (res: bool)
    ensures
        res == ((position matches Some(p) && p.source_id@ == source_id@) || (orientation matches Some(o)
            && o.source_id@ == source_id@) || exists|i: int|
            0 <= i < bindings@.len() && #[trigger] bindings@[i].source_id@ == source_id@),
{
    let by_position = match position {
        Some(p) => str_eq(p.source_id.as_str(), source_id),
        None => false,
    };
    let by_orientation = match orientation {
        Some(o) => str_eq(o.source_id.as_str(), source_id),
        None => false,
    };
    if by_position || by_orientation {
        return true;
    }
    let mut i: usize = 0;
    while i < bindings.len()
        invariant
            i <= bindings@.len(),
            forall|j: int| 0 <= j < i ==> bindings@[j].source_id@ != source_id@,
        decreases bindings@.len() - i,
    {
        if str_eq(bindings[i].source_id.as_str(), source_id) {
            return true;
        }
        i += 1;
    }
    false
}

/// The latest sample of one source, as the publisher sees it.
pub struct SampleSeen {
    pub sequence: u64,
    /// The sequence last published for the source.
    pub last_published: Option<u64>,
    /// The source feeds the published frames.
    pub relevant: bool,
    /// The source is a selected pose source.
    pub pose_source: bool,
}

/// What a tick publishes.
#[derive(PartialEq, Eq, Structural)]
pub enum Publication {
    Nothing,
    /// The control frame only.
    Control,
    /// The pose frame and the control frame.
    PoseAndControl,
}

pub open spec fn is_new(s: SampleSeen) -> bool {
    s.last_published != Some(s.sequence)
}

/// A tick publishes when a relevant source has an unpublished sample or the pose
/// selection changed; the pose frame is included when a pose source has an unpublished
/// sample or the selection changed.
pub fn publication(samples: &Vec<SampleSeen>, pose_dirty: bool) -> (res: Publication)
    ensures
        ({
            let changed = exists|i: int| 0 <= i < samples@.len() && #[trigger] samples@[i].relevant && is_new(samples@[i]);
            let pose_changed = exists|i: int| 0 <= i < samples@.len() && #[trigger] samples@[i].pose_source && is_new(samples@[i]);
            &&& (!changed && !pose_dirty) ==> res == Publication::Nothing
            &&& (changed || pose_dirty) && (pose_changed || pose_dirty) ==> res == Publication::PoseAndControl
            &&& (changed || pose_dirty) && !(pose_changed || pose_dirty) ==> res == Publication::Control
        }),
{
    let mut changed = false;
    let mut pose_changed = false;
    let mut i: usize = 0;
    while i < samples.len()
        invariant
            i <= samples@.len(),
            changed == exists|k: int| 0 <= k < i && #[trigger] samples@[k].relevant && is_new(samples@[k]),
            pose_changed == exists|k: int| 0 <= k < i && #[trigger] samples@[k].pose_source && is_new(samples@[k]),
        decreases samples@.len() - i,
    {
        let s = &samples[i];
        let fresh = match s.last_published {
            Some(p) => p != s.sequence,
            None => true,
        };
        if s.relevant && fresh {
            changed = true;
        }
        if s.pose_source && fresh {
            pose_changed = true;
        }
        i += 1;
    }
    if !changed && !pose_dirty {
        Publication::Nothing
    } else if pose_changed || pose_dirty {
        Publication::PoseAndControl
    } else {
        Publication::Control
    }
}

/// A listed input source, as a pose selection reads it.
pub struct ListedSource {
    pub source_id: String,
    pub driver_id: String,
    pub device_id: String,
    pub position_capable: bool,
    pub orientation_capable: bool,
    /// The device is connected and sending.
    pub active: bool,
}

/// Why a pose-source request is refused.
pub enum PoseSelectionError {
    Unavailable,
    Unsupported(RequestAction),
}

pub open spec fn pose_selection_error_text(error: PoseSelectionError) -> Seq<char> {
    match error {
        PoseSelectionError::Unavailable => "选择的输入 source 不存在或不提供对应位姿能力"@,
        PoseSelectionError::Unsupported(a) => "input 节点不处理 "@ + action_text(a) + " pose source 请求"@,
    }
}

impl PoseSelectionError {
    /// The message reported for the refusal.
    pub fn message(&self) -> (res: String)
        ensures
            res@ == pose_selection_error_text(*self),
    {
        match self {
            PoseSelectionError::Unavailable => owned("选择的输入 source 不存在或不提供对应位姿能力"),
            PoseSelectionError::Unsupported(a) => {
                let mut m = owned("input 节点不处理 ");
                m.append(action_label(*a));
                m.append(" pose source 请求");
                m
            },
        }
    }
}

/// What a pose-source request sets the component's selection to: `Select` needs the
/// listed source with the id, of the named driver and device, that provides the
/// component; `Unselect` clears it; other actions are refused.
pub fn pose_selection(
    sources: &Vec<ListedSource>,
    action: RequestAction,
    source_id: &str,
    driver_id: &str,
    device_id: &str,
    component: PoseComponent,
) -> (res: Result<Option<PoseSourceSelection>, PoseSelectionError>)
    ensures
        action == RequestAction::Select ==> match res {
            Ok(Some(sel)) => sel.source_id@ == source_id@ && sel.driver_id@ == driver_id@ && sel.device_id@
                == device_id@ && exists|i: int|
                0 <= i < sources@.len() && #[trigger] sources@[i].source_id@ == source_id@ && sources@[i].driver_id@
                    == driver_id@ && sources@[i].device_id@ == device_id@ && (match component {
                    PoseComponent::Position => sources@[i].position_capable,
                    PoseComponent::Orientation => sources@[i].orientation_capable,
                }),
            Ok(None) => false,
            Err(PoseSelectionError::Unavailable) => !exists|i: int|
                0 <= i < sources@.len() && #[trigger] sources@[i].source_id@ == source_id@ && sources@[i].driver_id@
                    == driver_id@ && sources@[i].device_id@ == device_id@ && (match component {
                    PoseComponent::Position => sources@[i].position_capable,
                    PoseComponent::Orientation => sources@[i].orientation_capable,
                }),
            Err(PoseSelectionError::Unsupported(_)) => false,
        },
        action == RequestAction::Unselect ==> res matches Ok(None),
        !(action == RequestAction::Select || action == RequestAction::Unselect) ==> (res matches Err(
            PoseSelectionError::Unsupported(a),
        ) && a == action),
{
    match action {
        RequestAction::Select => {},
        RequestAction::Unselect => {
            return Ok(None);
        },
        _ => {
            return Err(PoseSelectionError::Unsupported(action));
        },
    }
    let mut i: usize = 0;
    while i < sources.len()
        invariant
            action == RequestAction::Select,
            i <= sources@.len(),
            forall|j: int|
                0 <= j < i ==> !(#[trigger] sources@[j].source_id@ == source_id@ && sources@[j].driver_id@
                    == driver_id@ && sources@[j].device_id@ == device_id@ && (match component {
                    PoseComponent::Position => sources@[j].position_capable,
                    PoseComponent::Orientation => sources@[j].orientation_capable,
                })),
        decreases sources@.len() - i,
    {
        let s = &sources[i];
        let capable = match component {
            PoseComponent::Position => s.position_capable,
            PoseComponent::Orientation => s.orientation_capable,
        };
        if str_eq(s.source_id.as_str(), source_id) && str_eq(s.driver_id.as_str(), driver_id) && str_eq(
            s.device_id.as_str(),
            device_id,
        ) && capable {
            return Ok(
                Some(
                    PoseSourceSelection {
                        driver_id: s.driver_id.clone(),
                        device_id: s.device_id.clone(),
                        source_id: s.source_id.clone(),
                    },
                ),
            );
        }
        i += 1;
    }
    Err(PoseSelectionError::Unavailable)
}

/// A lower-case hexadecimal digit.
pub open spec fn hex_digit(d: int) -> char {
    if d < 10 {
        (('0' as int) + d) as char
    } else {
        (('a' as int) + d - 10) as char
    }
}

/// Four lower-case hexadecimal digits, zero padded (`{:04x}` of a 16-bit value).
pub open spec fn hex4(v: u16) -> Seq<char> {
    seq![
        hex_digit((v / 4096) as int),
        hex_digit(((v / 256) % 16) as int),
        hex_digit(((v / 16) % 16) as int),
        hex_digit((v % 16) as int),
    ]
}

fn hex_char(d: u16) -> (c: char)
    requires
        d < 16,
    ensures
        c == hex_digit(d as int),
{
    if d == 0 { '0' } else if d == 1 { '1' } else if d == 2 { '2' } else if d == 3 { '3' } else if d == 4 { '4' } else if d
        == 5 { '5' } else if d == 6 { '6' } else if d == 7 { '7' } else if d == 8 { '8' } else if d == 9 { '9' } else if d
        == 10 { 'a' } else if d == 11 { 'b' } else if d == 12 { 'c' } else if d == 13 { 'd' } else if d == 14 { 'e' } else { 'f' }
}

/// Appends `{:04x}` of a 16-bit value.
pub fn push_hex4(s: &mut String, v: u16)
    ensures
        final(s)@ == old(s)@ + hex4(v),
{
    push_char(s, hex_char(v / 4096));
    push_char(s, hex_char((v / 256) % 16));
    push_char(s, hex_char((v / 16) % 16));
    push_char(s, hex_char(v % 16));
    assert(final(s)@ =~= old(s)@ + hex4(v));
}

/// The device id of a NOLO receiver: vendor and product as four hex digits each, and its
/// serial number (or `receiver`).
pub fn nolo_device_id(vendor_id: u16, product_id: u16, serial: Option<&str>) -> (res: String)
    ensures
        res@ == hex4(vendor_id) + ":"@ + hex4(product_id) + ":"@ + match serial {
            Some(s) => s@,
            None => "receiver"@,
        },
{
    let mut id = String::new();
    push_hex4(&mut id, vendor_id);
    id.append(":");
    push_hex4(&mut id, product_id);
    id.append(":");
    match serial {
        Some(s) => id.append(s),
        None => id.append("receiver"),
    }
    id
}

/// The source id of one controller of a NOLO receiver.
pub fn nolo_source_id(device_id: &str, controller: u8) -> (res: String)
    ensures
        res@ == "nolo:"@ + device_id@ + ":controller-"@ + decimal_text(controller as nat),
{
    let mut id = owned("nolo:");
    id.append(device_id);
    id.append(":controller-");
    push_decimal(&mut id, controller as u64);
    id
}

/// The display name of one controller of a NOLO receiver.
pub fn nolo_display_name(product: Option<&str>, controller: u8) -> (res: String)
    ensures
        res@ == (match product {
            Some(p) => p@,
            None => "NOLO CV1"@,
        }) + " / Controller "@ + decimal_text(controller as nat),
{
    let mut name = match product {
        Some(p) => owned(p),
        None => owned("NOLO CV1"),
    };
    name.append(" / Controller ");
    push_decimal(&mut name, controller as u64);
    name
}

/// The node's persisted configuration; `O` is the per-source component offsets, carried
/// unread.
pub struct InputConfig<O> {
    pub schema_version: u32,
    pub position_source: Option<PoseSourceSelection>,
    pub orientation_source: Option<PoseSourceSelection>,
    pub bindings: Vec<ActionBinding>,
    pub feedback_bindings: Vec<FeedbackBinding>,
    pub component_offsets: O,
    pub config_version: u64,
}

/// The components of the generated test input that the simulation binds: the two
/// buttons of start/stop and the primary tool's value.
pub struct SimulationComponents {
    pub start_stop_a: String,
    pub start_stop_b: String,
    pub primary_tool: String,
}

pub open spec fn simulation_driver() -> Seq<char> {
    "generated-test-input"@
}

pub open spec fn simulation_device() -> Seq<char> {
    "generic-action-source"@
}

pub open spec fn simulation_source() -> Seq<char> {
    "simulation:generic-action-source"@
}

/// The selection of the generated test input as a pose source.
pub open spec fn is_simulation_selection(selection: Option<PoseSourceSelection>) -> bool {
    selection matches Some(s) && s.driver_id@ == simulation_driver() && s.device_id@ == simulation_device()
        && s.source_id@ == simulation_source()
}

pub open spec fn paths_of(paths: Seq<String>) -> Seq<Seq<char>> {
    paths.map_values(|p: String| p@)
}

fn simulation_selection() -> (res: PoseSourceSelection)
    ensures
        is_simulation_selection(Some(res)),
{
    PoseSourceSelection {
        driver_id: owned("generated-test-input"),
        device_id: owned("generic-action-source"),
        source_id: owned("simulation:generic-action-source"),
    }
}

/// The configuration for simulated input: both pose components come from the generated
/// test input, start/stop is bound to its two start/stop buttons and the primary tool to
/// its tool value, and the primary tool's feedback goes to the virtual feedback target.
/// The schema, the component offsets and the config version are kept.
pub fn simulation_config<O>(config: InputConfig<O>, components: &SimulationComponents) -> (res: InputConfig<O>)
    ensures
        res.schema_version == config.schema_version,
        res.config_version == config.config_version,
        res.component_offsets == config.component_offsets,
        is_simulation_selection(res.position_source),
        is_simulation_selection(res.orientation_source),
        res.bindings@.len() == 2,
        res.bindings@[0].action@ == "start_stop"@,
        res.bindings@[0].action_type == ActionType::Boolean,
        res.bindings@[0].source_id@ == simulation_source(),
        paths_of(res.bindings@[0].component_paths@) == seq![components.start_stop_a@, components.start_stop_b@],
        !res.bindings@[0].invert,
        res.bindings@[1].action@ == "primary_tool"@,
        res.bindings@[1].action_type == ActionType::Float,
        res.bindings@[1].source_id@ == simulation_source(),
        paths_of(res.bindings@[1].component_paths@) == seq![components.primary_tool@],
        !res.bindings@[1].invert,
        res.feedback_bindings@.len() == 1,
        res.feedback_bindings@[0].action@ == "primary_tool"@,
        res.feedback_bindings@[0].source_id@ == virtual_feedback_source(),
        res.feedback_bindings@[0].capability_path@ == virtual_feedback_capability(),
{
    let start_stop = ActionBinding {
        action: owned("start_stop"),
        action_type: ActionType::Boolean,
        source_id: owned("simulation:generic-action-source"),
        component_paths: vec![components.start_stop_a.clone(), components.start_stop_b.clone()],
        invert: false,
    };
    let primary_tool = ActionBinding {
        action: owned("primary_tool"),
        action_type: ActionType::Float,
        source_id: owned("simulation:generic-action-source"),
        component_paths: vec![components.primary_tool.clone()],
        invert: false,
    };
    let feedback = FeedbackBinding {
        action: owned("primary_tool"),
        source_id: owned("virtual-feedback"),
        capability_path: owned("feedback/virtual"),
    };
    let res = InputConfig {
        schema_version: config.schema_version,
        position_source: Some(simulation_selection()),
        orientation_source: Some(simulation_selection()),
        bindings: vec![start_stop, primary_tool],
        feedback_bindings: vec![feedback],
        component_offsets: config.component_offsets,
        config_version: config.config_version,
    };
    assert(paths_of(res.bindings@[0].component_paths@) =~= seq![components.start_stop_a@, components.start_stop_b@]);
    assert(paths_of(res.bindings@[1].component_paths@) =~= seq![components.primary_tool@]);
    res
}

} // verus!
