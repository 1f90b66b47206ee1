//! Validation of joint-motion requests against the arm model: the checks and their
//! order, and which requested target sets each model joint and the gripper.
use vstd::prelude::*;
use crate::messages::{action_label, action_text, RequestAction};
use crate::text::{owned, seq_lt, str_eq};

verus! {

/// A requested motion option: its key and whether its value is a finite number.
pub struct MotionOption {
    pub key: String,
    pub finite: bool,
}

/// A requested joint or actuator target: its key and whether its position is finite.
pub struct TargetKey {
    pub key: String,
    pub finite: bool,
}

/// Why a motion request is refused.
pub enum MotionRequestError {
    UnsupportedAction(RequestAction),
    NoMatchingArmState,
    UnknownOptions(Vec<String>),
    NonFiniteOption,
    InvalidJoint(String),
    InvalidActuator(String),
}

/// Which request entry sets each target: per model joint the index of the requested
/// joint with its key (else the current position is kept), and the index of the
/// gripper target (else the gripper stays).
pub struct MotionTargets {
    pub joint_sources: Vec<Option<usize>>,
    pub actuator_source: Option<usize>,
}

pub open spec fn allowed_option(key: Seq<char>) -> bool {
    key == "velocity_scaling"@ || key == "acceleration_scaling"@
}

pub open spec fn option_keys(options: Seq<MotionOption>) -> Seq<Seq<char>> {
    options.map_values(|o: MotionOption| o.key@)
}

pub open spec fn unknown_options(options: Seq<MotionOption>) -> Seq<Seq<char>> {
    option_keys(options).filter(|k: Seq<char>| !allowed_option(k))
}

pub open spec fn names(values: Seq<String>) -> Seq<Seq<char>> {
    values.map_values(|s: String| s@)
}

/// The i-th requested joint names no model joint, is not finite, or repeats an earlier key.
pub open spec fn joint_invalid(model: Seq<String>, joints: Seq<TargetKey>, i: int) -> bool {
    !names(model).contains(joints[i].key@) || !joints[i].finite || exists|j: int|
        0 <= j < i && joints[j].key@ == joints[i].key@
}

/// The i-th requested actuator is not the gripper, is not finite, or repeats a key.
pub open spec fn actuator_invalid(gripper: Seq<char>, actuators: Seq<TargetKey>, i: int) -> bool {
    actuators[i].key@ != gripper || !actuators[i].finite || exists|j: int|
        0 <= j < i && actuators[j].key@ == actuators[i].key@
}

pub open spec fn first_invalid_joint(model: Seq<String>, joints: Seq<TargetKey>, i: int) -> bool {
    0 <= i < joints.len() && joint_invalid(model, joints, i) && forall|j: int|
        0 <= j < i ==> !joint_invalid(model, joints, j)
}

pub open spec fn first_invalid_actuator(gripper: Seq<char>, actuators: Seq<TargetKey>, i: int) -> bool {
    0 <= i < actuators.len() && actuator_invalid(gripper, actuators, i) && forall|j: int|
        0 <= j < i ==> !actuator_invalid(gripper, actuators, j)
}

pub open spec fn any_joint_invalid(model: Seq<String>, joints: Seq<TargetKey>) -> bool {
    exists|i: int| 0 <= i < joints.len() && joint_invalid(model, joints, i)
}

pub open spec fn any_actuator_invalid(gripper: Seq<char>, actuators: Seq<TargetKey>) -> bool {
    exists|i: int| 0 <= i < actuators.len() && actuator_invalid(gripper, actuators, i)
}

pub open spec fn all_finite(options: Seq<MotionOption>) -> bool {
    forall|i: int| 0 <= i < options.len() ==> options[i].finite
}

/// The message a refused request reports.
pub open spec fn error_message_of(error: MotionRequestError) -> Seq<char> {
    match error {
        MotionRequestError::UnsupportedAction(a) => "unsupported motion action "@ + action_text(a),
        MotionRequestError::NoMatchingArmState => "model revision mismatch or no ArmState"@,
        MotionRequestError::UnknownOptions(keys) => "unknown motion options "@ + debug_list_text(names(keys@)),
        MotionRequestError::NonFiniteOption => "motion option values must be finite numbers"@,
        MotionRequestError::InvalidJoint(key) => "invalid joint target "@ + key@,
        MotionRequestError::InvalidActuator(key) => "invalid actuator target "@ + key@,
    }
}

/// The text of `{:?}` applied to a list of strings.
pub uninterp spec fn debug_list_text(values: Seq<Seq<char>>) -> Seq<char>;

/// Formats a list of strings with their `Debug` form (`["a", "b"]`).
///
/// Trusted: std's `Debug` for `Vec<String>`; its text is named, not restated.
#[verifier::external_body]
fn debug_list(values: &Vec<String>) -> (res: String)
    ensures
        res@ == debug_list_text(names(values@)),
{
    format!("{values:?}")
}

impl MotionRequestError {
    /// The message reported for the refusal.
    pub fn message(&self) -> (res: String)
        ensures
            res@ == error_message_of(*self),
    {
        match self {
            MotionRequestError::UnsupportedAction(a) => {
                let mut m = owned("unsupported motion action ");
                m.append(action_label(*a));
                m
            },
            MotionRequestError::NoMatchingArmState => owned("model revision mismatch or no ArmState"),
            MotionRequestError::UnknownOptions(keys) => {
                let mut m = owned("unknown motion options ");
                let listed = debug_list(keys);
                m.append(listed.as_str());
                m
            },
            MotionRequestError::NonFiniteOption => owned("motion option values must be finite numbers"),
            MotionRequestError::InvalidJoint(key) => {
                let mut m = owned("invalid joint target ");
                m.append(key.as_str());
                m
            },
            MotionRequestError::InvalidActuator(key) => {
                let mut m = owned("invalid actuator target ");
                m.append(key.as_str());
                m
            },
        }
    }
}

fn position_of(values: &Vec<String>, key: &String) -> (res: Option<usize>)
    ensures
        match res {
            Some(i) => i < values@.len() && values@[i as int]@ == key@ && forall|j: int|
                0 <= j < i ==> values@[j]@ != key@,
            None => !names(values@).contains(key@),
        },
{
    let mut i: usize = 0;
    while i < values.len()
        invariant
            i <= values@.len(),
            forall|j: int| 0 <= j < i ==> values@[j]@ != key@,
        decreases values@.len() - i,
    {
        if values[i] == *key {
            return Some(i);
        }
        i += 1;
    }
    proof {
        if names(values@).contains(key@) {
            let j = choose|j: int| 0 <= j < names(values@).len() && names(values@)[j] == key@;
            assert(values@[j]@ == key@);
        }
    }
    None
}

fn key_seen_before(targets: &Vec<TargetKey>, i: usize) -> (res: bool)
    requires
        i < targets@.len(),
    ensures
        res == exists|j: int| 0 <= j < i && targets@[j].key@ == targets@[i as int].key@,
{
    let mut j: usize = 0;
    while j < i
        invariant
            i < targets@.len(),
            j <= i,
            forall|m: int| 0 <= m < j ==> targets@[m].key@ != targets@[i as int].key@,
        decreases i - j,
    {
        if targets[j].key == targets[i].key {
            return true;
        }
        j += 1;
    }
    false
}

fn unknown_option_keys(options: &Vec<MotionOption>) -> (res: Vec<String>)
    ensures
        names(res@) == unknown_options(options@),
{
    let mut res: Vec<String> = Vec::new();
    let mut i: usize = 0;
    let ghost pred = |k: Seq<char>| !allowed_option(k);
    proof {
        reveal(Seq::filter);
        assert(option_keys(options@).take(0) =~= Seq::<Seq<char>>::empty());
        assert(names(res@) =~= option_keys(options@).take(0).filter(pred));
    }
    while i < options.len()
        invariant
            i <= options@.len(),
            pred == (|k: Seq<char>| !allowed_option(k)),
            names(res@) == option_keys(options@).take(i as int).filter(pred),
        decreases options@.len() - i,
    {
        proof {
            reveal(Seq::filter);
            assert(option_keys(options@).take(i as int + 1).drop_last() =~= option_keys(options@).take(i as int));
            assert(option_keys(options@).take(i as int + 1).last() == options@[i as int].key@);
        }
        let key = &options[i].key;
        let allowed = str_eq(key.as_str(), "velocity_scaling") || str_eq(key.as_str(), "acceleration_scaling");
        if !allowed {
            let ghost before = names(res@);
            res.push(key.clone());
            assert(names(res@) =~= before.push(key@));
        }
        i += 1;
    }
    proof {
        assert(option_keys(options@).take(options@.len() as int) =~= option_keys(options@));
    }
    res
}

/// Checks a motion request in this order: the action, the arm state and model
/// revision, the options (keyed, so their keys come ascending and each once), the joint
/// targets, the gripper target. On success, says which
/// request entry sets each model joint and the gripper.
#[verifier::loop_isolation(false)]
pub fn validate_motion_request(
    action: RequestAction,
    has_matching_arm_state: bool,
    options: &Vec<MotionOption>,
    joints: &Vec<TargetKey>,
    actuators: &Vec<TargetKey>,
    model_joints: &Vec<String>,
    gripper_key: &str,
) -> (res: Result<MotionTargets, MotionRequestError>)
    requires
        forall|i: int, j: int| 0 <= i < j < options@.len() ==> seq_lt(#[trigger] options@[i].key@, #[trigger] options@[j].key@),
    ensures
        action != RequestAction::Apply ==> (res is Err && (res->Err_0 matches MotionRequestError::UnsupportedAction(a)
            && a == action)),
        action == RequestAction::Apply && !has_matching_arm_state ==> res is Err && res->Err_0 is NoMatchingArmState,
        action == RequestAction::Apply && has_matching_arm_state && unknown_options(options@).len() > 0 ==> (res is Err
            && (res->Err_0 matches MotionRequestError::UnknownOptions(keys) && names(keys@)
            == unknown_options(options@))),
        action == RequestAction::Apply && has_matching_arm_state && unknown_options(options@).len() == 0 && !all_finite(
            options@,
        ) ==> res is Err && res->Err_0 is NonFiniteOption,
        action == RequestAction::Apply && has_matching_arm_state && unknown_options(options@).len() == 0 && all_finite(options@)
            && any_joint_invalid(model_joints@, joints@) ==> (res is Err
            && (res->Err_0 matches MotionRequestError::InvalidJoint(key) && exists|i: int|
            first_invalid_joint(model_joints@, joints@, i) && joints@[i].key@ == key@)),
        action == RequestAction::Apply && has_matching_arm_state && unknown_options(options@).len() == 0 && all_finite(options@)
            && !any_joint_invalid(model_joints@, joints@) && any_actuator_invalid(gripper_key@, actuators@)
            ==> (res is Err && (res->Err_0 matches MotionRequestError::InvalidActuator(key) && exists|
            i: int,
        | first_invalid_actuator(gripper_key@, actuators@, i) && actuators@[i].key@ == key@)),
        res is Ok <==> (action == RequestAction::Apply && has_matching_arm_state && unknown_options(options@).len() == 0
            && all_finite(options@) && !any_joint_invalid(model_joints@, joints@)
            && !any_actuator_invalid(gripper_key@, actuators@)),
        res matches Ok(targets) ==> {
            &&& targets.joint_sources@.len() == model_joints@.len()
            &&& forall|m: int|
                0 <= m < model_joints@.len() ==> match #[trigger] targets.joint_sources@[m] {
                    Some(i) => i < joints@.len() && joints@[i as int].key@ == model_joints@[m]@,
                    None => forall|i: int| 0 <= i < joints@.len() ==> joints@[i].key@ != model_joints@[m]@,
                }
            &&& match targets.actuator_source {
                Some(i) => i < actuators@.len() && actuators@[i as int].key@ == gripper_key@,
                None => actuators@.len() == 0,
            }
        },
{
    if action != RequestAction::Apply {
        return Err(MotionRequestError::UnsupportedAction(action));
    }
    if !has_matching_arm_state {
        return Err(MotionRequestError::NoMatchingArmState);
    }
    let unknown = unknown_option_keys(options);
    if unknown.len() > 0 {
        return Err(MotionRequestError::UnknownOptions(unknown));
    }
    let mut o: usize = 0;
    while o < options.len()
        invariant
            o <= options@.len(),
            forall|j: int| 0 <= j < o ==> options@[j].finite,
        decreases options@.len() - o,
    {
        if !options[o].finite {
            return Err(MotionRequestError::NonFiniteOption);
        }
        o += 1;
    }
    let mut i: usize = 0;
    while i < joints.len()
        invariant
            i <= joints@.len(),
            forall|j: int| 0 <= j < i ==> !joint_invalid(model_joints@, joints@, j),
        decreases joints@.len() - i,
    {
        let found = position_of(model_joints, &joints[i].key);
        let known = found.is_some();
        proof {
            if known {
                let x = found->0 as int;
                assert(names(model_joints@)[x] == joints@[i as int].key@);
            }
        }
        if !known || !joints[i].finite || key_seen_before(joints, i) {
            let key = joints[i].key.clone();
            assert(first_invalid_joint(model_joints@, joints@, i as int));
            return Err(MotionRequestError::InvalidJoint(key));
        }
        i += 1;
    }
    let mut a: usize = 0;
    let mut actuator_source: Option<usize> = None;
    while a < actuators.len()
        invariant
            a <= actuators@.len(),
            forall|j: int| 0 <= j < a ==> !actuator_invalid(gripper_key@, actuators@, j),
            match actuator_source {
                Some(x) => x < a && actuators@[x as int].key@ == gripper_key@,
                None => a == 0,
            },
        decreases actuators@.len() - a,
    {
        let valid = str_eq(actuators[a].key.as_str(), gripper_key) && actuators[a].finite
            && !key_seen_before(actuators, a);
        if !valid {
            let key = actuators[a].key.clone();
            assert(first_invalid_actuator(gripper_key@, actuators@, a as int));
            return Err(MotionRequestError::InvalidActuator(key));
        }
        actuator_source = Some(a);
        a += 1;
    }
    let mut joint_sources: Vec<Option<usize>> = Vec::new();
    let mut m: usize = 0;
    while m < model_joints.len()
        invariant
            m <= model_joints@.len(),
            joint_sources@.len() == m,
            forall|k: int|
                0 <= k < m ==> match #[trigger] joint_sources@[k] {
                    Some(i) => i < joints@.len() && joints@[i as int].key@ == model_joints@[k]@,
                    None => forall|i: int| 0 <= i < joints@.len() ==> joints@[i].key@ != model_joints@[k]@,
                },
        decreases model_joints@.len() - m,
    {
        let mut found: Option<usize> = None;
        let mut i: usize = 0;
        while i < joints.len()
            invariant
                m < model_joints@.len(),
                i <= joints@.len(),
                match found {
                    Some(x) => x < joints@.len() && joints@[x as int].key@ == model_joints@[m as int]@,
                    None => forall|j: int| 0 <= j < i ==> joints@[j].key@ != model_joints@[m as int]@,
                },
            decreases joints@.len() - i,
        {
            if found.is_none() && joints[i].key == model_joints[m] {
                found = Some(i);
            }
            i += 1;
        }
        joint_sources.push(found);
        m += 1;
    }
    Ok(MotionTargets { joint_sources, actuator_source })
}

} // verus!
