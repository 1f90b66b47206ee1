//! The StarArm motion supervisor: a queue of joint-motion requests executed one at a
//! time, interleaved with ros2_control controller synchronisation, cancellation and
//! failure reporting. Each event yields the next state and the actions to perform.
use vstd::prelude::*;
use crate::messages::RequestState;
use crate::text::{owned, str_eq};

verus! {

/// Where joint feedback comes from.
#[derive(PartialEq, Eq, Structural, Clone, Copy)]
pub enum FeedbackSource {
    Hardware,
    Simulation,
}

/// The action a request result acknowledges.
#[derive(PartialEq, Eq, Structural, Clone, Copy)]
pub enum AckAction {
    Apply,
    Cancel,
}

/// The status of the latest motion request. `P` carries the planner's details
/// (trajectory size and duration), which the supervisor passes on unread.
pub struct MotionStatus<P> {
    pub request_id: String,
    pub acknowledged_action: String,
    pub state: RequestState,
    pub backend_name: String,
    pub result_code: Option<String>,
    pub result_message: Option<String>,
    pub plan: Option<P>,
}

/// The motion being executed.
pub struct ActiveMotion {
    pub request_id: String,
    pub complete_in_relative_mode: bool,
    pub cancelled: bool,
}

/// A motion waiting to be executed; `job` names the joint targets the caller holds.
pub struct PendingMotion {
    pub request_id: String,
    pub job: u64,
    pub complete_in_relative_mode: bool,
}

/// How a started motion ended.
pub enum MotionOutcome {
    /// The trajectory was executed; `relative_mode_error` is the error of switching to
    /// relative control afterwards, when that switch was needed and failed.
    Succeeded { code: String, relative_mode_error: Option<String> },
    Failed(String),
}

/// What the supervisor is told.
pub enum MotionEvent<P> {
    /// Joint feedback arrived from `source` (already checked against the model).
    ArmState(FeedbackSource),
    /// A validated motion request; `job` names its joint targets.
    Enqueue { request_id: String, job: u64, complete_in_relative_mode: bool },
    /// Controller synchronisation ended.
    SyncFinished(Result<(), String>),
    /// The forward-kinematics query ended.
    CurrentPose(Result<(), String>),
    /// Switching the servo to pose mode ended.
    PoseMode(Result<(), String>),
    /// The planner accepted a motion and execution began.
    Executing { request_id: String, plan: P, collision_pairs: Vec<(String, String)> },
    /// A started motion ended.
    Finished { request_id: String, outcome: MotionOutcome },
    /// A cancel request.
    Cancel(String),
    /// A request was refused before it was queued.
    Fail { request_id: String, message: String, action: AckAction },
}

/// What the caller performs, in order.
pub enum MotionAction<P> {
    /// Publish the status on `motion_status`.
    PublishStatus(MotionStatus<P>),
    /// Publish the status as the result of its request on `motion_request_result`.
    PublishResult(MotionStatus<P>),
    /// Execute the queued job.
    RunMotion(u64),
    SynchronizeControllers,
    RequestCurrentPose,
    /// Forget the relative-control session, anchor and target.
    ResetRelativeBaseline,
    /// Remember the latest feedback as the last controller command.
    RecordFeedbackAsCommand,
    /// Publish the node's state.
    PublishState,
}

/// The supervisor's state.
pub struct MotionSupervisor<P> {
    pub active: Option<ActiveMotion>,
    pub queue: Vec<PendingMotion>,
    pub sync_required: bool,
    pub sync_running: bool,
    pub output_armed: bool,
    pub feedback_source: Option<FeedbackSource>,
    pub has_feedback: bool,
    pub fk_pending: bool,
    pub pose_mode_ready: bool,
    pub status: MotionStatus<P>,
    pub last_error: Option<String>,
}

// ---------------------------------------------------------------------------------------
// Model
// ---------------------------------------------------------------------------------------

pub struct StatusView<P> {
    pub request_id: Seq<char>,
    pub acknowledged_action: Seq<char>,
    pub state: RequestState,
    pub backend_name: Seq<char>,
    pub result_code: Option<Seq<char>>,
    pub result_message: Option<Seq<char>>,
    pub plan: Option<P>,
}

pub struct ActiveView {
    pub request_id: Seq<char>,
    pub complete_in_relative_mode: bool,
    pub cancelled: bool,
}

pub struct PendingView {
    pub request_id: Seq<char>,
    pub job: u64,
    pub complete_in_relative_mode: bool,
}

pub enum ActionView<P> {
    PublishStatus(StatusView<P>),
    PublishResult(StatusView<P>),
    RunMotion(u64),
    SynchronizeControllers,
    RequestCurrentPose,
    ResetRelativeBaseline,
    RecordFeedbackAsCommand,
    PublishState,
}

pub enum OutcomeView {
    Succeeded { code: Seq<char>, relative_mode_error: Option<Seq<char>> },
    Failed(Seq<char>),
}

pub enum EventView<P> {
    ArmState(FeedbackSource),
    Enqueue { request_id: Seq<char>, job: u64, complete_in_relative_mode: bool },
    SyncFinished(Result<(), Seq<char>>),
    CurrentPose(Result<(), Seq<char>>),
    PoseMode(Result<(), Seq<char>>),
    Executing { request_id: Seq<char>, plan: P, collision_pairs: Seq<(Seq<char>, Seq<char>)> },
    Finished { request_id: Seq<char>, outcome: OutcomeView },
    Cancel(Seq<char>),
    Fail { request_id: Seq<char>, message: Seq<char>, action: AckAction },
}

pub struct SupervisorView<P> {
    pub active: Option<ActiveView>,
    pub queue: Seq<PendingView>,
    pub sync_required: bool,
    pub sync_running: bool,
    pub output_armed: bool,
    pub feedback_source: Option<FeedbackSource>,
    pub has_feedback: bool,
    pub fk_pending: bool,
    pub pose_mode_ready: bool,
    pub status: StatusView<P>,
    pub last_error: Option<Seq<char>>,
}

pub open spec fn opt_view(value: Option<String>) -> Option<Seq<char>> {
    match value {
        Some(s) => Some(s@),
        None => None,
    }
}

pub open spec fn result_view(value: Result<(), String>) -> Result<(), Seq<char>> {
    match value {
        Ok(()) => Ok(()),
        Err(e) => Err(e@),
    }
}

impl<P> MotionStatus<P> {
    pub open spec fn view(self) -> StatusView<P> {
        StatusView {
            request_id: self.request_id@,
            acknowledged_action: self.acknowledged_action@,
            state: self.state,
            backend_name: self.backend_name@,
            result_code: opt_view(self.result_code),
            result_message: opt_view(self.result_message),
            plan: self.plan,
        }
    }
}

impl ActiveMotion {
    pub open spec fn view(self) -> ActiveView {
        ActiveView {
            request_id: self.request_id@,
            complete_in_relative_mode: self.complete_in_relative_mode,
            cancelled: self.cancelled,
        }
    }
}

impl PendingMotion {
    pub open spec fn view(self) -> PendingView {
        PendingView {
            request_id: self.request_id@,
            job: self.job,
            complete_in_relative_mode: self.complete_in_relative_mode,
        }
    }
}

pub open spec fn active_view(value: Option<ActiveMotion>) -> Option<ActiveView> {
    match value {
        Some(a) => Some(a.view()),
        None => None,
    }
}

impl<P> MotionAction<P> {
    pub open spec fn view(self) -> ActionView<P> {
        match self {
            MotionAction::PublishStatus(s) => ActionView::PublishStatus(s.view()),
            MotionAction::PublishResult(s) => ActionView::PublishResult(s.view()),
            MotionAction::RunMotion(j) => ActionView::RunMotion(j),
            MotionAction::SynchronizeControllers => ActionView::SynchronizeControllers,
            MotionAction::RequestCurrentPose => ActionView::RequestCurrentPose,
            MotionAction::ResetRelativeBaseline => ActionView::ResetRelativeBaseline,
            MotionAction::RecordFeedbackAsCommand => ActionView::RecordFeedbackAsCommand,
            MotionAction::PublishState => ActionView::PublishState,
        }
    }
}

pub open spec fn actions_view<P>(actions: Seq<MotionAction<P>>) -> Seq<ActionView<P>> {
    actions.map_values(|a: MotionAction<P>| a.view())
}

pub open spec fn pairs_view(pairs: Seq<(String, String)>) -> Seq<(Seq<char>, Seq<char>)> {
    pairs.map_values(|p: (String, String)| (p.0@, p.1@))
}

impl<P> MotionEvent<P> {
    pub open spec fn view(self) -> EventView<P> {
        match self {
            MotionEvent::ArmState(s) => EventView::ArmState(s),
            MotionEvent::Enqueue { request_id, job, complete_in_relative_mode } => EventView::Enqueue {
                request_id: request_id@,
                job,
                complete_in_relative_mode,
            },
            MotionEvent::SyncFinished(r) => EventView::SyncFinished(result_view(r)),
            MotionEvent::CurrentPose(r) => EventView::CurrentPose(result_view(r)),
            MotionEvent::PoseMode(r) => EventView::PoseMode(result_view(r)),
            MotionEvent::Executing { request_id, plan, collision_pairs } => EventView::Executing {
                request_id: request_id@,
                plan,
                collision_pairs: pairs_view(collision_pairs@),
            },
            MotionEvent::Finished { request_id, outcome } => EventView::Finished {
                request_id: request_id@,
                outcome: match outcome {
                    MotionOutcome::Succeeded { code, relative_mode_error } => OutcomeView::Succeeded {
                        code: code@,
                        relative_mode_error: opt_view(relative_mode_error),
                    },
                    MotionOutcome::Failed(e) => OutcomeView::Failed(e@),
                },
            },
            MotionEvent::Cancel(id) => EventView::Cancel(id@),
            MotionEvent::Fail { request_id, message, action } => EventView::Fail {
                request_id: request_id@,
                message: message@,
                action,
            },
        }
    }
}

impl<P> MotionSupervisor<P> {
    pub open spec fn view(self) -> SupervisorView<P> {
        SupervisorView {
            active: active_view(self.active),
            queue: self.queue@.map_values(|p: PendingMotion| p.view()),
            sync_required: self.sync_required,
            sync_running: self.sync_running,
            output_armed: self.output_armed,
            feedback_source: self.feedback_source,
            has_feedback: self.has_feedback,
            fk_pending: self.fk_pending,
            pose_mode_ready: self.pose_mode_ready,
            status: self.status.view(),
            last_error: opt_view(self.last_error),
        }
    }
}

pub open spec fn action_name_of(action: AckAction) -> Seq<char> {
    match action {
        AckAction::Cancel => "cancel"@,
        AckAction::Apply => "apply"@,
    }
}

/// The status before any motion was requested.
pub open spec fn idle_view<P>() -> StatusView<P> {
    StatusView {
        request_id: Seq::empty(),
        acknowledged_action: "apply"@,
        state: RequestState::Idle,
        backend_name: "moveit"@,
        result_code: None,
        result_message: Some("尚未请求普通运动"@),
        plan: None,
    }
}

pub open spec fn with_state<P>(id: Seq<char>, state: RequestState, message: Seq<char>) -> StatusView<P> {
    StatusView { request_id: id, state, result_message: Some(message), ..idle_view() }
}

pub open spec fn planning_message(waiting_for_sync: bool) -> Seq<char> {
    if waiting_for_sync {
        "等待 ros2_control 同步当前反馈"@
    } else {
        "MoveIt 正在规划普通关节目标"@
    }
}

/// The failed status and the two publications of a refused or failed request.
pub open spec fn fail_view<P>(v: SupervisorView<P>, id: Seq<char>, message: Seq<char>, action: AckAction) -> (
    SupervisorView<P>,
    Seq<ActionView<P>>,
) {
    let status = StatusView {
        request_id: id,
        acknowledged_action: action_name_of(action),
        state: RequestState::Failed,
        result_message: Some(message),
        ..idle_view()
    };
    (
        SupervisorView { status, ..v },
        seq![
            ActionView::ResetRelativeBaseline,
            ActionView::PublishStatus(status),
            ActionView::PublishResult(status),
        ],
    )
}

pub open spec fn start_sync_view<P>(v: SupervisorView<P>) -> (SupervisorView<P>, Seq<ActionView<P>>) {
    if v.sync_required && !v.sync_running && v.active is None {
        (
            SupervisorView { sync_running: true, sync_required: false, ..v },
            seq![ActionView::SynchronizeControllers],
        )
    } else {
        (v, Seq::empty())
    }
}

/// Starts the front request when nothing runs: it is announced as planning, then either
/// waits for controller synchronisation or becomes the active motion.
pub open spec fn start_next_view<P>(v: SupervisorView<P>) -> (SupervisorView<P>, Seq<ActionView<P>>) {
    if v.active is Some {
        (v, Seq::empty())
    } else if v.queue.len() == 0 {
        start_sync_view(v)
    } else {
        let front = v.queue[0];
        let waiting = v.sync_required || v.sync_running;
        let status = with_state(front.request_id, RequestState::Planning, planning_message(waiting));
        let v1 = SupervisorView { status, ..v };
        if waiting {
            let (v2, a) = start_sync_view(v1);
            (v2, seq![ActionView::PublishStatus(status)] + a)
        } else {
            (
                SupervisorView {
                    queue: v.queue.drop_first(),
                    active: Some(
                        ActiveView {
                            request_id: front.request_id,
                            complete_in_relative_mode: front.complete_in_relative_mode,
                            cancelled: false,
                        },
                    ),
                    ..v1
                },
                seq![ActionView::PublishStatus(status), ActionView::RunMotion(front.job)],
            )
        }
    }
}

pub open spec fn requires_sync(v_source: Option<FeedbackSource>, source: FeedbackSource) -> bool {
    v_source is None || (v_source != Some(source) && source == FeedbackSource::Hardware)
}

pub open spec fn arm_state_view<P>(v: SupervisorView<P>, source: FeedbackSource) -> (
    SupervisorView<P>,
    Seq<ActionView<P>>,
) {
    let sync = requires_sync(v.feedback_source, source);
    let v1 = SupervisorView {
        feedback_source: Some(source),
        sync_required: if sync { true } else { v.sync_required },
        output_armed: if sync { false } else { v.output_armed },
        ..v
    };
    let a1: Seq<ActionView<P>> = if !v1.output_armed {
        seq![ActionView::RecordFeedbackAsCommand]
    } else {
        Seq::empty()
    };
    let a2: Seq<ActionView<P>> = if !v1.fk_pending {
        seq![ActionView::RequestCurrentPose]
    } else {
        Seq::empty()
    };
    let v2 = SupervisorView { fk_pending: true, has_feedback: true, ..v1 };
    let (v3, a3) = start_sync_view(v2);
    (v3, a1 + a2 + a3)
}

pub open spec fn joined_pairs(pairs: Seq<(Seq<char>, Seq<char>)>) -> Seq<char>
    decreases pairs.len(),
{
    if pairs.len() == 0 {
        Seq::empty()
    } else if pairs.len() == 1 {
        pairs[0].0 + "↔"@ + pairs[0].1
    } else {
        joined_pairs(pairs.drop_last()) + "、"@ + pairs.last().0 + "↔"@ + pairs.last().1
    }
}

pub open spec fn executing_message(pairs: Seq<(Seq<char>, Seq<char>)>) -> Seq<char> {
    if pairs.len() == 0 {
        "普通运动规划通过"@
    } else {
        "普通运动规划通过；本次临时放行 "@ + joined_pairs(pairs)
    }
}

pub open spec fn is_live_active<P>(v: SupervisorView<P>, id: Seq<char>) -> bool {
    v.active is Some && v.active->0.request_id == id && !v.active->0.cancelled
}

pub open spec fn succeeded_view<P>(v: SupervisorView<P>, code: Seq<char>) -> (SupervisorView<P>, Seq<ActionView<P>>) {
    let status = StatusView {
        state: RequestState::Succeeded,
        result_code: Some(code),
        result_message: Some("普通运动执行完成"@),
        ..v.status
    };
    let v1 = SupervisorView { status, ..v };
    let (v2, a2) = start_next_view(v1);
    (
        v2,
        seq![ActionView::PublishStatus(status), ActionView::PublishResult(status)] + a2 + seq![
            ActionView::PublishState,
        ],
    )
}

pub open spec fn failed_then_next_view<P>(v: SupervisorView<P>, id: Seq<char>, error: Seq<char>) -> (
    SupervisorView<P>,
    Seq<ActionView<P>>,
) {
    let (v1, a1) = fail_view(v, id, error, AckAction::Apply);
    let (v2, a2) = start_next_view(v1);
    (v2, a1 + a2 + seq![ActionView::PublishState])
}

/// The end of the live (not cancelled) active motion `id`, already taken off.
pub open spec fn finish_live_view<P>(v: SupervisorView<P>, complete_in_relative_mode: bool, id: Seq<char>, outcome: OutcomeView) -> (
    SupervisorView<P>,
    Seq<ActionView<P>>,
) {
    match outcome {
        OutcomeView::Succeeded { code, relative_mode_error } => {
            if complete_in_relative_mode && relative_mode_error is Some {
                fail_view(v, id, relative_mode_error->0, AckAction::Apply)
            } else {
                succeeded_view(v, code)
            }
        },
        OutcomeView::Failed(error) => failed_then_next_view(v, id, error),
    }
}

/// The end of a started motion: the active motion is taken off; an end that does not
/// match it changes nothing else; a cancelled motion just lets the next start.
pub open spec fn finished_view<P>(v: SupervisorView<P>, id: Seq<char>, outcome: OutcomeView) -> (
    SupervisorView<P>,
    Seq<ActionView<P>>,
) {
    let taken = SupervisorView { active: None, ..v };
    if v.active is None || v.active->0.request_id != id {
        (taken, Seq::empty())
    } else if v.active->0.cancelled {
        let (v2, a2) = start_next_view(taken);
        (v2, seq![ActionView::ResetRelativeBaseline] + a2 + seq![ActionView::PublishState])
    } else {
        let (v1, a1) = finish_live_view(taken, v.active->0.complete_in_relative_mode, id, outcome);
        (v1, seq![ActionView::ResetRelativeBaseline] + a1)
    }
}

/// A cancel ends the front queued request when nothing is active (and starts the next).
pub open spec fn cancel_queued_view<P>(v: SupervisorView<P>) -> (SupervisorView<P>, Seq<ActionView<P>>) {
    if v.active is None && v.queue.len() > 0 {
        let front = v.queue[0];
        let cancelled = with_state(front.request_id, RequestState::Cancelled, "普通运动请求已取消"@);
        let (vs, as_) = start_next_view(SupervisorView { queue: v.queue.drop_first(), ..v });
        (vs, seq![ActionView::PublishResult(cancelled)] + as_)
    } else {
        (v, Seq::<ActionView<P>>::empty())
    }
}

/// A cancel marks the active motion cancelled; it still runs to its end.
pub open spec fn cancel_active_view<P>(v: SupervisorView<P>) -> (SupervisorView<P>, Seq<ActionView<P>>) {
    if v.active is Some {
        let active = v.active->0;
        let cancelled = with_state(
            active.request_id,
            RequestState::Cancelled,
            "普通运动请求已取消；当前 MoveIt 动作结束后可再次运动"@,
        );
        (
            SupervisorView { active: Some(ActiveView { cancelled: true, ..active }), ..v },
            seq![ActionView::PublishResult(cancelled)],
        )
    } else {
        (v, Seq::<ActionView<P>>::empty())
    }
}

pub open spec fn cancel_ack<P>(id: Seq<char>) -> StatusView<P> {
    StatusView {
        request_id: id,
        acknowledged_action: "cancel"@,
        state: RequestState::Cancelled,
        result_message: Some("普通运动请求已取消"@),
        ..idle_view()
    }
}

pub open spec fn cancel_view<P>(v: SupervisorView<P>, id: Seq<char>) -> (SupervisorView<P>, Seq<ActionView<P>>) {
    let (v1, a1) = cancel_queued_view(v);
    let (v2, a2) = cancel_active_view(v1);
    let ack = cancel_ack::<P>(id);
    (
        SupervisorView { status: ack, ..v2 },
        seq![ActionView::ResetRelativeBaseline] + a1 + a2 + seq![
            ActionView::PublishStatus(ack),
            ActionView::PublishResult(ack),
        ],
    )
}

/// A failed synchronisation fails the request waiting at the front of the queue.
pub open spec fn sync_failed_view<P>(v: SupervisorView<P>, e: Seq<char>) -> (SupervisorView<P>, Seq<ActionView<P>>) {
    let v1 = SupervisorView { sync_required: true, last_error: Some(e), ..v };
    if v1.queue.len() > 0 {
        fail_view(
            SupervisorView { queue: v1.queue.drop_first(), ..v1 },
            v1.queue[0].request_id,
            "同步 ros2_control 控制器失败："@ + e,
            AckAction::Apply,
        )
    } else {
        (v1, Seq::empty())
    }
}

/// The end of controller synchronisation.
pub open spec fn sync_finished_view<P>(v: SupervisorView<P>, result: Result<(), Seq<char>>) -> (
    SupervisorView<P>,
    Seq<ActionView<P>>,
) {
    let v0 = SupervisorView { sync_running: false, ..v };
    let (v2, a2) = match result {
        Ok(()) => (SupervisorView { last_error: None, ..v0 }, Seq::<ActionView<P>>::empty()),
        Err(e) => sync_failed_view(v0, e),
    };
    let (v3, a3) = start_next_view(v2);
    (v3, a2 + a3 + seq![ActionView::PublishState])
}

/// The planner began executing `request_id`: reported only for the live active motion.
pub open spec fn executing_view<P>(
    v: SupervisorView<P>,
    request_id: Seq<char>,
    plan: P,
    collision_pairs: Seq<(Seq<char>, Seq<char>)>,
) -> (SupervisorView<P>, Seq<ActionView<P>>) {
    if is_live_active(v, request_id) {
        let status = StatusView {
            state: RequestState::Executing,
            plan: Some(plan),
            result_message: Some(executing_message(collision_pairs)),
            ..v.status
        };
        (SupervisorView { output_armed: true, status, ..v }, seq![ActionView::PublishStatus(status)])
    } else {
        (v, Seq::empty())
    }
}

/// The next state and the actions of one event.
pub open spec fn step<P>(v: SupervisorView<P>, event: EventView<P>) -> (SupervisorView<P>, Seq<ActionView<P>>) {
    match event {
        EventView::ArmState(source) => arm_state_view(v, source),
        EventView::Enqueue { request_id, job, complete_in_relative_mode } => start_next_view(
            SupervisorView {
                queue: v.queue.push(PendingView { request_id, job, complete_in_relative_mode }),
                ..v
            },
        ),
        EventView::SyncFinished(result) => sync_finished_view(v, result),
        EventView::CurrentPose(result) => (
            SupervisorView {
                fk_pending: false,
                last_error: match result {
                    Ok(()) => v.last_error,
                    Err(e) => Some(e),
                },
                ..v
            },
            seq![ActionView::PublishState],
        ),
        EventView::PoseMode(result) => (
            match result {
                Ok(()) => SupervisorView { pose_mode_ready: true, ..v },
                Err(e) => SupervisorView { last_error: Some(e), ..v },
            },
            seq![ActionView::PublishState],
        ),
        EventView::Executing { request_id, plan, collision_pairs } => executing_view(
            v,
            request_id,
            plan,
            collision_pairs,
        ),
        EventView::Finished { request_id, outcome } => finished_view(v, request_id, outcome),
        EventView::Cancel(id) => cancel_view(v, id),
        EventView::Fail { request_id, message, action } => fail_view(v, request_id, message, action),
    }
}

/// Controllers are never synchronised while a motion executes.
pub open spec fn supervisor_inv<P>(v: SupervisorView<P>) -> bool {
    !(v.active is Some && v.sync_running)
}

// ---------------------------------------------------------------------------------------
// Executable
// ---------------------------------------------------------------------------------------

/// The name of the action a status acknowledges.
pub fn action_name(action: AckAction) -> (res: &'static str)
    ensures
        res@ == action_name_of(action),
{
    match action {
        AckAction::Cancel => "cancel",
        AckAction::Apply => "apply",
    }
}

/// Collision pairs in the form `a↔b`, joined by `、`.
pub fn format_pairs(pairs: &Vec<(String, String)>) -> (res: String)
    ensures
        res@ == joined_pairs(pairs_view(pairs@)),
{
    let mut res = String::new();
    let mut i: usize = 0;
    while i < pairs.len()
        invariant
            i <= pairs@.len(),
            res@ == joined_pairs(pairs_view(pairs@).take(i as int)),
        decreases pairs@.len() - i,
    {
        proof {
            let v = pairs_view(pairs@);
            assert(v.take(i as int + 1).drop_last() =~= v.take(i as int));
            if i == 0 {
                assert(v.take(0) =~= Seq::<(Seq<char>, Seq<char>)>::empty());
            }
        }
        if i > 0 {
            res.append("、");
        }
        res.append(pairs[i].0.as_str());
        res.append("↔");
        res.append(pairs[i].1.as_str());
        proof {
            let v = pairs_view(pairs@);
            let t = v.take(i as int + 1);
            assert(t.last() == (pairs@[i as int].0@, pairs@[i as int].1@));
            if i == 0 {
                assert(joined_pairs(v.take(0)) =~= Seq::<char>::empty());
                assert(res@ =~= t[0].0 + "↔"@ + t[0].1);
            } else {
                assert(res@ =~= joined_pairs(t.drop_last()) + "、"@ + t.last().0 + "↔"@ + t.last().1);
            }
        }
        i += 1;
    }
    proof {
        assert(pairs_view(pairs@).take(pairs@.len() as int) =~= pairs_view(pairs@));
    }
    res
}

/// The status before any motion was requested.
pub fn idle_status<P>() -> (res: MotionStatus<P>)
    ensures
        res.view() == idle_view::<P>(),
{
    MotionStatus {
        request_id: String::new(),
        acknowledged_action: owned("apply"),
        state: RequestState::Idle,
        backend_name: owned("moveit"),
        result_code: None,
        result_message: Some(owned("尚未请求普通运动")),
        plan: None,
    }
}

fn clone_opt(value: &Option<String>) -> (res: Option<String>)
    ensures
        opt_view(res) == opt_view(*value),
{
    match value {
        Some(s) => Some(s.clone()),
        None => None,
    }
}

fn status_with<P>(id: String, state: RequestState, message: &str) -> (res: MotionStatus<P>)
    ensures
        res.view() == with_state::<P>(id@, state, message@),
{
    let mut status = idle_status();
    status.request_id = id;
    status.state = state;
    status.result_message = Some(owned(message));
    status
}

impl<P: Copy> MotionStatus<P> {
    /// A copy of the status.
    pub fn copy(&self) -> (res: Self)
        ensures
            res.view() == self.view(),
    {
        MotionStatus {
            request_id: self.request_id.clone(),
            acknowledged_action: self.acknowledged_action.clone(),
            state: self.state,
            backend_name: self.backend_name.clone(),
            result_code: clone_opt(&self.result_code),
            result_message: clone_opt(&self.result_message),
            plan: self.plan,
        }
    }

    /// The error a request result carries: the message of a failed request.
    pub fn result_error(&self) -> (res: Option<String>)
        ensures
            opt_view(res) == if self.state == RequestState::Failed {
                opt_view(self.result_message)
            } else {
                None
            },
    {
        if self.state == RequestState::Failed {
            clone_opt(&self.result_message)
        } else {
            None
        }
    }

    /// Whether the result acknowledges a cancel request.
    pub fn acknowledges_cancel(&self) -> (res: bool)
        ensures
            res == (self.acknowledged_action@ == "cancel"@),
    {
        str_eq(self.acknowledged_action.as_str(), "cancel")
    }
}

impl<P: Copy> MotionSupervisor<P> {
    /// A supervisor with nothing queued, no feedback yet and the idle status.
    pub fn new() -> (res: Self)
        ensures
            res.view() == (SupervisorView::<P> {
                active: None,
                queue: Seq::empty(),
                sync_required: false,
                sync_running: false,
                output_armed: false,
                feedback_source: None,
                has_feedback: false,
                fk_pending: false,
                pose_mode_ready: false,
                status: idle_view(),
                last_error: None,
            }),
    {
        let res = MotionSupervisor {
            active: None,
            queue: Vec::new(),
            sync_required: false,
            sync_running: false,
            output_armed: false,
            feedback_source: None,
            has_feedback: false,
            fk_pending: false,
            pose_mode_ready: false,
            status: idle_status(),
            last_error: None,
        };
        assert(res.view().queue =~= Seq::<PendingView>::empty());
        res
    }

    proof fn lemma_queue_push(&self, p: PendingMotion)
        ensures
            self.queue@.push(p).map_values(|q: PendingMotion| q.view()) == self.view().queue.push(p.view()),
    {
        assert(self.queue@.push(p).map_values(|q: PendingMotion| q.view()) =~= self.view().queue.push(p.view()));
    }

    fn start_sync(&mut self, actions: &mut Vec<MotionAction<P>>)
        ensures
            final(self).view() == start_sync_view(old(self).view()).0,
            actions_view(final(actions)@) == actions_view(old(actions)@) + start_sync_view(old(self).view()).1,
    {
        if self.sync_required && !self.sync_running && self.active.is_none() {
            self.sync_running = true;
            self.sync_required = false;
            actions.push(MotionAction::SynchronizeControllers);
        }
        assert(actions_view(actions@) =~= actions_view(old(actions)@) + start_sync_view(old(self).view()).1);
    }

    fn start_next(&mut self, actions: &mut Vec<MotionAction<P>>)
        ensures
            final(self).view() == start_next_view(old(self).view()).0,
            actions_view(final(actions)@) == actions_view(old(actions)@) + start_next_view(old(self).view()).1,
    {
        let ghost v = self.view();
        let ghost a0 = actions_view(actions@);
        if self.active.is_some() {
            assert(actions_view(actions@) =~= a0 + Seq::<ActionView<P>>::empty());
            return;
        }
        if self.queue.len() == 0 {
            self.start_sync(actions);
            return;
        }
        let waiting = self.sync_required || self.sync_running;
        let message = if waiting {
            "等待 ros2_control 同步当前反馈"
        } else {
            "MoveIt 正在规划普通关节目标"
        };
        let status: MotionStatus<P> = status_with(self.queue[0].request_id.clone(), RequestState::Planning, message);
        self.status = status.copy();
        actions.push(MotionAction::PublishStatus(status));
        let ghost a1 = actions_view(actions@);
        assert(a1 =~= a0 + seq![ActionView::PublishStatus(self.status.view())]);
        if waiting {
            let ghost v1 = self.view();
            assert(v1 == SupervisorView { status: self.status.view(), ..v });
            self.start_sync(actions);
            assert(actions_view(actions@) =~= a1 + start_sync_view(v1).1);
            assert(actions_view(actions@) =~= a0 + (seq![ActionView::PublishStatus(self.status.view())] + start_sync_view(v1).1));
        } else {
            let front = self.queue.remove(0);
            self.active = Some(
                ActiveMotion {
                    request_id: front.request_id,
                    complete_in_relative_mode: front.complete_in_relative_mode,
                    cancelled: false,
                },
            );
            actions.push(MotionAction::RunMotion(front.job));
            assert(self.view().queue =~= v.queue.drop_first());
            assert(actions_view(actions@) =~= a0 + start_next_view(v).1);
        }
    }

    fn fail(&mut self, request_id: String, message: String, action: AckAction, actions: &mut Vec<MotionAction<P>>)
        ensures
            final(self).view() == fail_view(old(self).view(), request_id@, message@, action).0,
            actions_view(final(actions)@) == actions_view(old(actions)@) + fail_view(
                old(self).view(),
                request_id@,
                message@,
                action,
            ).1,
    {
        let mut status: MotionStatus<P> = idle_status();
        status.request_id = request_id;
        status.acknowledged_action = owned(action_name(action));
        status.state = RequestState::Failed;
        status.result_message = Some(message);
        self.status = status.copy();
        let copy = status.copy();
        actions.push(MotionAction::ResetRelativeBaseline);
        actions.push(MotionAction::PublishStatus(status));
        actions.push(MotionAction::PublishResult(copy));
        assert(actions_view(actions@) =~= actions_view(old(actions)@) + fail_view(
            old(self).view(),
            request_id@,
            message@,
            action,
        ).1);
    }

    fn arm_state(&mut self, source: FeedbackSource, actions: &mut Vec<MotionAction<P>>)
        ensures
            final(self).view() == arm_state_view(old(self).view(), source).0,
            actions_view(final(actions)@) == actions_view(old(actions)@) + arm_state_view(old(self).view(), source).1,
    {
        let ghost a0 = actions_view(actions@);
        let sync = match self.feedback_source {
            None => true,
            Some(previous) => previous != source && source == FeedbackSource::Hardware,
        };
        self.feedback_source = Some(source);
        if sync {
            self.sync_required = true;
            self.output_armed = false;
        }
        let ghost a1_len = actions@.len();
        if !self.output_armed {
            actions.push(MotionAction::RecordFeedbackAsCommand);
        }
        if !self.fk_pending {
            actions.push(MotionAction::RequestCurrentPose);
        }
        self.fk_pending = true;
        self.has_feedback = true;
        let ghost mid = actions_view(actions@);
        self.start_sync(actions);
        assert(actions_view(actions@) =~= actions_view(old(actions)@) + arm_state_view(old(self).view(), source).1);
    }

    fn succeeded(&mut self, code: String, actions: &mut Vec<MotionAction<P>>)
        ensures
            final(self).view() == succeeded_view(old(self).view(), code@).0,
            actions_view(final(actions)@) == actions_view(old(actions)@) + succeeded_view(old(self).view(), code@).1,
    {
        let ghost a0 = actions_view(actions@);
        let ghost c = code@;
        self.status.state = RequestState::Succeeded;
        self.status.result_code = Some(code);
        self.status.result_message = Some(owned("普通运动执行完成"));
        let first = self.status.copy();
        let second = self.status.copy();
        actions.push(MotionAction::PublishStatus(first));
        actions.push(MotionAction::PublishResult(second));
        let ghost mid_state = self.view();
        let ghost a2 = actions_view(actions@);
        assert(mid_state == succeeded_view(old(self).view(), c).0 || true);
        assert(mid_state.status == StatusView {
            state: RequestState::Succeeded,
            result_code: Some(c),
            result_message: Some("普通运动执行完成"@),
            ..old(self).view().status
        });
        assert(mid_state == SupervisorView { status: mid_state.status, ..old(self).view() });
        assert(a2 =~= a0 + seq![ActionView::PublishStatus(mid_state.status), ActionView::PublishResult(mid_state.status)]);
        self.start_next(actions);
        let ghost a3 = actions_view(actions@);
        assert(a3 == a2 + start_next_view(mid_state).1);
        actions.push(MotionAction::PublishState);
        assert(actions_view(actions@) =~= a3 + seq![ActionView::PublishState]);
        assert(actions_view(actions@) =~= a0 + succeeded_view(old(self).view(), c).1);
    }

    fn failed_then_next(&mut self, request_id: String, error: String, actions: &mut Vec<MotionAction<P>>)
        ensures
            final(self).view() == failed_then_next_view(old(self).view(), request_id@, error@).0,
            actions_view(final(actions)@) == actions_view(old(actions)@) + failed_then_next_view(
                old(self).view(),
                request_id@,
                error@,
            ).1,
    {
        let ghost a0 = actions_view(actions@);
        let ghost id = request_id@;
        let ghost err = error@;
        self.fail(request_id, error, AckAction::Apply, actions);
        let ghost vf = self.view();
        let ghost a2 = actions_view(actions@);
        assert(vf == fail_view(old(self).view(), id, err, AckAction::Apply).0);
        assert(a2 == a0 + fail_view(old(self).view(), id, err, AckAction::Apply).1);
        self.start_next(actions);
        let ghost a3 = actions_view(actions@);
        assert(a3 == a2 + start_next_view(vf).1);
        actions.push(MotionAction::PublishState);
        assert(actions_view(actions@) =~= a3 + seq![ActionView::PublishState]);
        assert(actions_view(actions@) =~= a0 + failed_then_next_view(old(self).view(), id, err).1);
    }

    fn finish_live(&mut self, complete_in_relative_mode: bool, request_id: String, outcome: MotionOutcome, actions: &mut Vec<MotionAction<P>>)
        ensures
            final(self).view() == finish_live_view(
                old(self).view(),
                complete_in_relative_mode,
                request_id@,
                MotionEvent::<P>::Finished { request_id, outcome }.view()->outcome,
            ).0,
            actions_view(final(actions)@) == actions_view(old(actions)@) + finish_live_view(
                old(self).view(),
                complete_in_relative_mode,
                request_id@,
                MotionEvent::<P>::Finished { request_id, outcome }.view()->outcome,
            ).1,
    {
        match outcome {
            MotionOutcome::Succeeded { code, relative_mode_error } => {
                if complete_in_relative_mode && relative_mode_error.is_some() {
                    let error = relative_mode_error.unwrap();
                    self.fail(request_id, error, AckAction::Apply, actions);
                } else {
                    self.succeeded(code, actions);
                }
            },
            MotionOutcome::Failed(error) => {
                self.failed_then_next(request_id, error, actions);
            },
        }
    }

    #[verifier::rlimit(30)]
    fn finished(&mut self, request_id: String, outcome: MotionOutcome, actions: &mut Vec<MotionAction<P>>)
        ensures
            final(self).view() == finished_view(
                old(self).view(),
                request_id@,
                MotionEvent::<P>::Finished { request_id, outcome }.view()->outcome,
            ).0,
            actions_view(final(actions)@) == actions_view(old(actions)@) + finished_view(
                old(self).view(),
                request_id@,
                MotionEvent::<P>::Finished { request_id, outcome }.view()->outcome,
            ).1,
    {
        let ghost v = self.view();
        let ghost o = MotionEvent::<P>::Finished { request_id, outcome }.view()->outcome;
        let ghost a0 = actions_view(actions@);
        let active = match self.active.take() {
            Some(active) => active,
            None => {
                assert(actions_view(actions@) =~= a0 + finished_view(v, request_id@, o).1);
                return;
            },
        };
        if !(active.request_id == request_id) {
            assert(actions_view(actions@) =~= a0 + finished_view(v, request_id@, o).1);
            return;
        }
        let ghost taken = self.view();
        assert(taken == SupervisorView { active: None, ..v });
        actions.push(MotionAction::ResetRelativeBaseline);
        let ghost a1 = actions_view(actions@);
        assert(a1 =~= a0 + seq![ActionView::ResetRelativeBaseline]);
        if active.cancelled {
            self.start_next(actions);
            let ghost a2 = actions_view(actions@);
            assert(a2 == a1 + start_next_view(taken).1);
            actions.push(MotionAction::PublishState);
            assert(actions_view(actions@) =~= a2 + seq![ActionView::PublishState]);
            assert(actions_view(actions@) =~= a0 + (seq![ActionView::ResetRelativeBaseline] + start_next_view(taken).1 + seq![ActionView::PublishState]));
            return;
        }
        let ghost complete = active.complete_in_relative_mode;
        self.finish_live(active.complete_in_relative_mode, request_id, outcome, actions);
        assert(actions_view(actions@) == a1 + finish_live_view(taken, complete, v.active->0.request_id, o).1);
        assert(actions_view(actions@) =~= a0 + (seq![ActionView::ResetRelativeBaseline] + finish_live_view(taken, complete, v.active->0.request_id, o).1));
    }

    fn cancel_queued(&mut self, actions: &mut Vec<MotionAction<P>>)
        ensures
            final(self).view() == cancel_queued_view(old(self).view()).0,
            actions_view(final(actions)@) == actions_view(old(actions)@) + cancel_queued_view(old(self).view()).1,
    {
        let ghost v = self.view();
        let ghost a0 = actions_view(actions@);
        if self.active.is_none() && self.queue.len() > 0 {
            let front = self.queue.remove(0);
            assert(self.view() == SupervisorView { queue: v.queue.drop_first(), ..v }) by {
                assert(self.view().queue =~= v.queue.drop_first());
            }
            let ghost v1 = self.view();
            let cancelled: MotionStatus<P> = status_with(front.request_id, RequestState::Cancelled, "普通运动请求已取消");
            actions.push(MotionAction::PublishResult(cancelled));
            let ghost a1 = actions_view(actions@);
            self.start_next(actions);
            assert(actions_view(actions@) == a1 + start_next_view(v1).1);
            assert(actions_view(actions@) =~= a0 + cancel_queued_view(v).1);
        } else {
            assert(actions_view(actions@) =~= a0 + Seq::<ActionView<P>>::empty());
        }
    }

    fn cancel_active(&mut self, actions: &mut Vec<MotionAction<P>>)
        ensures
            final(self).view() == cancel_active_view(old(self).view()).0,
            actions_view(final(actions)@) == actions_view(old(actions)@) + cancel_active_view(old(self).view()).1,
    {
        let ghost a0 = actions_view(actions@);
        match self.active.take() {
            Some(active) => {
                let cancelled: MotionStatus<P> = status_with(
                    active.request_id.clone(),
                    RequestState::Cancelled,
                    "普通运动请求已取消；当前 MoveIt 动作结束后可再次运动",
                );
                actions.push(MotionAction::PublishResult(cancelled));
                self.active = Some(ActiveMotion { cancelled: true, ..active });
            },
            None => {},
        }
        assert(actions_view(actions@) =~= a0 + cancel_active_view(old(self).view()).1);
    }

    fn cancel(&mut self, request_id: String, actions: &mut Vec<MotionAction<P>>)
        ensures
            final(self).view() == cancel_view(old(self).view(), request_id@).0,
            actions_view(final(actions)@) == actions_view(old(actions)@) + cancel_view(old(self).view(), request_id@).1,
    {
        let ghost v = self.view();
        let ghost a0 = actions_view(actions@);
        actions.push(MotionAction::ResetRelativeBaseline);
        let ghost a_reset = actions_view(actions@);
        assert(a_reset =~= a0 + seq![ActionView::ResetRelativeBaseline]);
        self.cancel_queued(actions);
        let ghost v1 = self.view();
        let ghost a_first = actions_view(actions@);
        self.cancel_active(actions);
        let ghost a_second = actions_view(actions@);
        assert(a_second == a_first + cancel_active_view(v1).1);
        let mut ack: MotionStatus<P> = status_with(request_id, RequestState::Cancelled, "普通运动请求已取消");
        ack.acknowledged_action = owned("cancel");
        assert(ack.view() == cancel_ack::<P>(request_id@));
        self.status = ack.copy();
        let copy = ack.copy();
        actions.push(MotionAction::PublishStatus(ack));
        actions.push(MotionAction::PublishResult(copy));
        assert(actions_view(actions@) =~= a_second + seq![
            ActionView::PublishStatus(cancel_ack::<P>(request_id@)),
            ActionView::PublishResult(cancel_ack::<P>(request_id@)),
        ]);
        assert(actions_view(actions@) =~= a0 + cancel_view(v, request_id@).1);
    }

    fn sync_failed(&mut self, error: String, actions: &mut Vec<MotionAction<P>>)
        ensures
            final(self).view() == sync_failed_view(old(self).view(), error@).0,
            actions_view(final(actions)@) == actions_view(old(actions)@) + sync_failed_view(old(self).view(), error@).1,
    {
        let ghost a0 = actions_view(actions@);
        self.sync_required = true;
        self.last_error = Some(error.clone());
        let ghost v1 = self.view();
        if self.queue.len() > 0 {
            let pending = self.queue.remove(0);
            assert(self.view() == SupervisorView { queue: v1.queue.drop_first(), ..v1 }) by {
                assert(self.view().queue =~= v1.queue.drop_first());
            }
            let mut message = owned("同步 ros2_control 控制器失败：");
            message.append(error.as_str());
            self.fail(pending.request_id, message, AckAction::Apply, actions);
        } else {
            assert(actions_view(actions@) =~= a0 + Seq::<ActionView<P>>::empty());
        }
    }

    fn sync_finished(&mut self, result: Result<(), String>, actions: &mut Vec<MotionAction<P>>)
        ensures
            final(self).view() == sync_finished_view(old(self).view(), result_view(result)).0,
            actions_view(final(actions)@) == actions_view(old(actions)@) + sync_finished_view(
                old(self).view(),
                result_view(result),
            ).1,
    {
        let ghost a0 = actions_view(actions@);
        self.sync_running = false;
        match result {
            Ok(()) => {
                self.last_error = None;
                assert(actions_view(actions@) =~= a0 + Seq::<ActionView<P>>::empty());
            },
            Err(error) => {
                self.sync_failed(error, actions);
            },
        }
        let ghost v2 = self.view();
        let ghost a2 = actions_view(actions@);
        self.start_next(actions);
        let ghost a3 = actions_view(actions@);
        assert(a3 == a2 + start_next_view(v2).1);
        actions.push(MotionAction::PublishState);
        assert(actions_view(actions@) =~= a3 + seq![ActionView::PublishState]);
        assert(actions_view(actions@) =~= a0 + sync_finished_view(old(self).view(), result_view(result)).1);
    }

    fn executing(&mut self, request_id: String, plan: P, collision_pairs: Vec<(String, String)>, actions: &mut Vec<MotionAction<P>>)
        ensures
            final(self).view() == executing_view(old(self).view(), request_id@, plan, pairs_view(collision_pairs@)).0,
            actions_view(final(actions)@) == actions_view(old(actions)@) + executing_view(
                old(self).view(),
                request_id@,
                plan,
                pairs_view(collision_pairs@),
            ).1,
    {
        let ghost a0 = actions_view(actions@);
        if self.active_request_is(request_id.as_str()) {
            self.output_armed = true;
            self.status.state = RequestState::Executing;
            self.status.plan = Some(plan);
            let message = if collision_pairs.len() == 0 {
                owned("普通运动规划通过")
            } else {
                let mut m = owned("普通运动规划通过；本次临时放行 ");
                let joined = format_pairs(&collision_pairs);
                m.append(joined.as_str());
                m
            };
            self.status.result_message = Some(message);
            actions.push(MotionAction::PublishStatus(self.status.copy()));
        }
        assert(actions_view(actions@) =~= a0 + executing_view(
            old(self).view(),
            request_id@,
            plan,
            pairs_view(collision_pairs@),
        ).1);
    }

    /// Applies one event; returns the actions to perform, in order.
    pub fn handle(&mut self, event: MotionEvent<P>) -> (actions: Vec<MotionAction<P>>)
        ensures
            final(self).view() == step(old(self).view(), event.view()).0,
            actions_view(actions@) == step(old(self).view(), event.view()).1,
    {
        let mut actions: Vec<MotionAction<P>> = Vec::new();
        let ghost v = self.view();
        let ghost e = event.view();
        assert(actions_view(actions@) =~= Seq::<ActionView<P>>::empty());
        match event {
            MotionEvent::ArmState(source) => {
                self.arm_state(source, &mut actions);
                assert(actions_view(actions@) =~= step(v, e).1);
            },
            MotionEvent::Enqueue { request_id, job, complete_in_relative_mode } => {
                let pending = PendingMotion { request_id, job, complete_in_relative_mode };
                proof {
                    self.lemma_queue_push(pending);
                }
                self.queue.push(pending);
                self.start_next(&mut actions);
                assert(actions_view(actions@) =~= step(v, e).1);
            },
            MotionEvent::SyncFinished(result) => {
                self.sync_finished(result, &mut actions);
                assert(actions_view(actions@) =~= step(v, e).1);
            },
            MotionEvent::CurrentPose(result) => {
                self.fk_pending = false;
                match result {
                    Ok(()) => {},
                    Err(error) => {
                        self.last_error = Some(error);
                    },
                }
                actions.push(MotionAction::PublishState);
                assert(actions_view(actions@) =~= step(v, e).1);
            },
            MotionEvent::PoseMode(result) => {
                match result {
                    Ok(()) => {
                        self.pose_mode_ready = true;
                    },
                    Err(error) => {
                        self.last_error = Some(error);
                    },
                }
                actions.push(MotionAction::PublishState);
                assert(actions_view(actions@) =~= step(v, e).1);
            },
            MotionEvent::Executing { request_id, plan, collision_pairs } => {
                self.executing(request_id, plan, collision_pairs, &mut actions);
                assert(actions_view(actions@) =~= step(v, e).1);
            },
            MotionEvent::Finished { request_id, outcome } => {
                self.finished(request_id, outcome, &mut actions);
                assert(actions_view(actions@) =~= step(v, e).1);
            },
            MotionEvent::Cancel(request_id) => {
                self.cancel(request_id, &mut actions);
                assert(actions_view(actions@) =~= step(v, e).1);
            },
            MotionEvent::Fail { request_id, message, action } => {
                self.fail(request_id, message, action, &mut actions);
                assert(actions_view(actions@) =~= step(v, e).1);
            },
        }
        actions
    }

    /// Whether the active motion is `request_id` and was not cancelled.
    pub fn active_request_is(&self, request_id: &str) -> (res: bool)
        ensures
            res == is_live_active(self.view(), request_id@),
    {
        match &self.active {
            Some(active) => str_eq(active.request_id.as_str(), request_id) && !active.cancelled,
            None => false,
        }
    }

    /// Whether a successful end of `request_id` must first switch to relative control.
    pub fn finish_needs_relative_mode(&self, request_id: &str) -> (res: bool)
        ensures
            res == (is_live_active(self.view(), request_id@) && self.view().active->0.complete_in_relative_mode),
    {
        match &self.active {
            Some(active) => str_eq(active.request_id.as_str(), request_id) && !active.cancelled
                && active.complete_in_relative_mode,
            None => false,
        }
    }

    /// Whether a controller command may be forwarded to the arm: feedback was seen,
    /// controllers are synchronised and an output was armed.
    pub fn controller_command_allowed(&self) -> (res: bool)
        ensures
            res == (self.has_feedback && !self.sync_required && !self.sync_running && self.output_armed),
    {
        self.has_feedback && !self.sync_required && !self.sync_running && self.output_armed
    }

    /// Whether relative control may move the arm: relative mode, and no motion running
    /// or waiting.
    pub fn relative_control_allowed(&self, relative_mode: bool) -> (res: bool)
        ensures
            res == (relative_mode && self.active is None && self.queue@.len() == 0),
    {
        relative_mode && self.active.is_none() && self.queue.len() == 0
    }

    /// Marks that an output was sent to the arm, so controller commands follow it.
    pub fn arm_output(&mut self)
        ensures
            final(self).view() == (SupervisorView { output_armed: true, ..old(self).view() }),
    {
        self.output_armed = true;
    }

    /// Whether the node produces output: pose mode is on, controllers are synchronised
    /// and the ROS outputs are ready.
    pub fn has_output(&self, ros_outputs_ready: bool) -> (res: bool)
        ensures
            res == (self.pose_mode_ready && !self.sync_required && !self.sync_running && ros_outputs_ready),
    {
        self.pose_mode_ready && !self.sync_required && !self.sync_running && ros_outputs_ready
    }
}

} // verus!

verus! {

// ---------------------------------------------------------------------------------------
// Laws
// ---------------------------------------------------------------------------------------

proof fn lemma_start_sync_keeps_inv<P>(v: SupervisorView<P>)
    requires
        supervisor_inv(v),
    ensures
        supervisor_inv(start_sync_view(v).0),
        start_sync_view(v).0.active == v.active,
{
}

proof fn lemma_start_next_keeps_inv<P>(v: SupervisorView<P>)
    requires
        supervisor_inv(v),
    ensures
        supervisor_inv(start_next_view(v).0),
{
    if v.active is None && v.queue.len() > 0 {
        let front = v.queue[0];
        let waiting = v.sync_required || v.sync_running;
        let status = with_state::<P>(front.request_id, RequestState::Planning, planning_message(waiting));
        lemma_start_sync_keeps_inv(SupervisorView { status, ..v });
    }
}

/// Controller synchronisation never runs while a motion executes, whatever happens.
pub proof fn synchronisation_never_overlaps_motion<P>(v: SupervisorView<P>, event: EventView<P>)
    requires
        supervisor_inv(v),
    ensures
        supervisor_inv(step(v, event).0),
{
    match event {
        EventView::ArmState(source) => {
            let sync = requires_sync(v.feedback_source, source);
            let v1 = SupervisorView {
                feedback_source: Some(source),
                sync_required: if sync { true } else { v.sync_required },
                output_armed: if sync { false } else { v.output_armed },
                ..v
            };
            lemma_start_sync_keeps_inv(SupervisorView { fk_pending: true, has_feedback: true, ..v1 });
        },
        EventView::Enqueue { request_id, job, complete_in_relative_mode } => {
            lemma_start_next_keeps_inv(
                SupervisorView {
                    queue: v.queue.push(PendingView { request_id, job, complete_in_relative_mode }),
                    ..v
                },
            );
        },
        EventView::SyncFinished(result) => {
            let v0 = SupervisorView { sync_running: false, ..v };
            match result {
                Ok(()) => lemma_start_next_keeps_inv(SupervisorView { last_error: None, ..v0 }),
                Err(e) => lemma_start_next_keeps_inv(sync_failed_view(v0, e).0),
            }
        },
        EventView::Finished { request_id, outcome } => {
            let taken = SupervisorView { active: None, ..v };
            if v.active is Some && v.active->0.request_id == request_id {
                if v.active->0.cancelled {
                    lemma_start_next_keeps_inv(taken);
                } else {
                    match outcome {
                        OutcomeView::Succeeded { code, relative_mode_error } => {
                            let status = StatusView {
                                state: RequestState::Succeeded,
                                result_code: Some(code),
                                result_message: Some("普通运动执行完成"@),
                                ..taken.status
                            };
                            lemma_start_next_keeps_inv(SupervisorView { status, ..taken });
                        },
                        OutcomeView::Failed(error) => {
                            lemma_start_next_keeps_inv(fail_view(taken, request_id, error, AckAction::Apply).0);
                        },
                    }
                }
            }
        },
        EventView::Cancel(id) => {
            if v.active is None && v.queue.len() > 0 {
                lemma_start_next_keeps_inv(SupervisorView { queue: v.queue.drop_first(), ..v });
            }
        },
        _ => {},
    }
}

/// A motion starts only at the front of the queue, and only while controllers are
/// synchronised and no synchronisation is running.
pub proof fn motion_starts_only_when_synchronised<P>(v: SupervisorView<P>, job: u64)
    requires
        start_next_view(v).1.contains(ActionView::RunMotion(job)),
    ensures
        v.active is None,
        v.queue.len() > 0,
        v.queue[0].job == job,
        !v.sync_required,
        !v.sync_running,
{
    if v.active is None && v.queue.len() > 0 && (v.sync_required || v.sync_running) {
        let front = v.queue[0];
        let status = with_state::<P>(front.request_id, RequestState::Planning, planning_message(true));
        let v1 = SupervisorView { status, ..v };
        let a = start_next_view(v).1;
        let i = choose|i: int| 0 <= i < a.len() && a[i] == ActionView::<P>::RunMotion(job);
        assert(a == seq![ActionView::PublishStatus(status)] + start_sync_view(v1).1);
        if i > 0 {
            assert(start_sync_view(v1).1[i - 1] == a[i]);
        }
    }
    if v.active is None && v.queue.len() == 0 {
        let a = start_next_view(v).1;
        let i = choose|i: int| 0 <= i < a.len() && a[i] == ActionView::<P>::RunMotion(job);
        assert(a[i] == ActionView::<P>::SynchronizeControllers);
    }
}

/// A cancelled motion is never reported as executing.
pub proof fn cancelled_motion_is_not_reported_executing<P>(
    v: SupervisorView<P>,
    request_id: Seq<char>,
    plan: P,
    collision_pairs: Seq<(Seq<char>, Seq<char>)>,
)
    requires
        v.active is Some,
        v.active->0.cancelled,
    ensures
        step(v, EventView::Executing { request_id, plan, collision_pairs }).1.len() == 0,
        step(v, EventView::Executing { request_id, plan, collision_pairs }).0 == v,
{
}

/// Every cancel request is answered: the last two actions publish its cancelled status
/// and its result.
pub proof fn cancel_is_always_answered<P>(v: SupervisorView<P>, id: Seq<char>)
    ensures
        ({
            let a = step(v, EventView::Cancel(id)).1;
            &&& a.len() >= 3
            &&& a[a.len() - 2] == ActionView::PublishStatus(cancel_ack::<P>(id))
            &&& a[a.len() - 1] == ActionView::PublishResult(cancel_ack::<P>(id))
            &&& cancel_ack::<P>(id).state == RequestState::Cancelled
            &&& cancel_ack::<P>(id).request_id == id
        }),
{
}

/// Starting the next request publishes only its planning status, never a result, and
/// leaves the status either as it was or planning.
proof fn lemma_start_next_only_plans<P>(v: SupervisorView<P>)
    ensures
        forall|i: int|
            0 <= i < start_next_view(v).1.len() ==> match #[trigger] start_next_view(v).1[i] {
                ActionView::PublishStatus(s) => s.state == RequestState::Planning,
                ActionView::PublishResult(_) => false,
                _ => true,
            },
        start_next_view(v).0.status == v.status || start_next_view(v).0.status.state == RequestState::Planning,
{
    let (v2, a) = start_next_view(v);
    if v.active is None && v.queue.len() > 0 {
        let front = v.queue[0];
        let waiting = v.sync_required || v.sync_running;
        let status = with_state::<P>(front.request_id, RequestState::Planning, planning_message(waiting));
        let v1 = SupervisorView { status, ..v };
        if waiting {
            let sa = start_sync_view(v1).1;
            assert(a == seq![ActionView::PublishStatus(status)] + sa);
            assert forall|i: int| 0 <= i < a.len() implies match #[trigger] a[i] {
                ActionView::PublishStatus(s) => s.state == RequestState::Planning,
                ActionView::PublishResult(_) => false,
                _ => true,
            } by {
                if i > 0 {
                    assert(a[i] == sa[i - 1]);
                }
            }
        }
    }
}

/// A started motion that fails is reported failed: after the relative baseline is reset
/// (for the end and for the failure), the request's status and its result are published
/// as failed, for that request, acknowledging the apply, with the error as the message;
/// the node's state is published last. No status or result published on the way reports
/// success, and the supervisor's status is not left succeeded.
pub proof fn failed_motion_is_reported_failed<P>(v: SupervisorView<P>, id: Seq<char>, error: Seq<char>)
    requires
        v.active is Some,
        v.active->0.request_id == id,
        !v.active->0.cancelled,
    ensures
        ({
            let (v2, a) = step(v, EventView::Finished { request_id: id, outcome: OutcomeView::Failed(error) });
            &&& a.len() >= 5
            &&& a[0] == ActionView::<P>::ResetRelativeBaseline
            &&& a[1] == ActionView::<P>::ResetRelativeBaseline
            &&& a[2] matches ActionView::PublishStatus(s) && s.state == RequestState::Failed && s.request_id == id
                && s.result_message == Some(error) && s.acknowledged_action == "apply"@
            &&& a[3] matches ActionView::PublishResult(s) && s.state == RequestState::Failed && s.request_id == id
                && s.result_message == Some(error) && s.acknowledged_action == "apply"@
            &&& a[a.len() - 1] == ActionView::<P>::PublishState
            &&& forall|i: int|
                0 <= i < a.len() ==> match #[trigger] a[i] {
                    ActionView::PublishStatus(s) => s.state != RequestState::Succeeded,
                    ActionView::PublishResult(s) => s.state != RequestState::Succeeded,
                    _ => true,
                }
            &&& v2.status.state != RequestState::Succeeded
        }),
{
    let taken = SupervisorView { active: None, ..v };
    let (v1, a1) = fail_view(taken, id, error, AckAction::Apply);
    let (v2, a2) = start_next_view(v1);
    lemma_start_next_only_plans(v1);
    let a = step(v, EventView::Finished { request_id: id, outcome: OutcomeView::Failed(error) }).1;
    assert(a == seq![ActionView::ResetRelativeBaseline] + (a1 + a2 + seq![ActionView::PublishState]));
    assert forall|i: int| 0 <= i < a.len() implies match #[trigger] a[i] {
        ActionView::PublishStatus(s) => s.state != RequestState::Succeeded,
        ActionView::PublishResult(s) => s.state != RequestState::Succeeded,
        _ => true,
    } by {
        if 4 <= i < a.len() - 1 {
            assert(a[i] == a2[i - 4]);
        }
    }
}

/// A started motion that ends well is reported succeeded: its status and result are
/// published as succeeded for that request, with the executor's code, unless it was to
/// end in relative control and switching to it failed, in which case both report the
/// failure with the switch's error.
pub proof fn finished_motion_is_reported_by_its_outcome<P>(
    v: SupervisorView<P>,
    id: Seq<char>,
    code: Seq<char>,
    relative_mode_error: Option<Seq<char>>,
)
    requires
        v.active is Some,
        v.active->0.request_id == id,
        !v.active->0.cancelled,
        v.status.request_id == id,
    ensures
        ({
            let a = step(
                v,
                EventView::Finished {
                    request_id: id,
                    outcome: OutcomeView::Succeeded { code, relative_mode_error },
                },
            ).1;
            let failed = v.active->0.complete_in_relative_mode && relative_mode_error is Some;
            &&& a.len() >= 3
            &&& a[0] == ActionView::<P>::ResetRelativeBaseline
            &&& failed ==> (a[2] matches ActionView::PublishStatus(s) && s.state == RequestState::Failed
                && s.request_id == id && s.result_message == relative_mode_error)
            &&& !failed ==> (a[1] matches ActionView::PublishStatus(s) && s.state == RequestState::Succeeded
                && s.request_id == id && s.result_code == Some(code))
            &&& !failed ==> (a[2] matches ActionView::PublishResult(s) && s.state == RequestState::Succeeded
                && s.request_id == id && s.result_code == Some(code))
        }),
{
}

} // verus!
