//! The perception node's request rules: when a scene may be computed, which camera a
//! reset clears, and how the settings change.
use vstd::prelude::*;
use crate::messages::{action_label, action_text, RequestAction};
use crate::text::{owned, str_eq};

verus! {

/// Why a perception request is refused.
pub enum PerceptionError {
    CalibrationRunning,
    NotCalibrated,
    NoFrame,
    NoResetTarget,
    UnsupportedAction(RequestAction),
}

pub open spec fn perception_error_text(error: PerceptionError) -> Seq<char> {
    match error {
        PerceptionError::CalibrationRunning => "相机外参标定进行中，请在标定结束后运行感知"@,
        PerceptionError::NotCalibrated => "当前相机尚未配置外参"@,
        PerceptionError::NoFrame => "尚未收到相机帧"@,
        PerceptionError::NoResetTarget => "请选择要重置的深度相机"@,
        PerceptionError::UnsupportedAction(a) => "perception request action "@ + action_text(a)
            + " is not supported"@,
    }
}

impl PerceptionError {
    /// The message reported for the refusal.
    pub fn message(&self) -> (res: String)
        ensures
            res@ == perception_error_text(*self),
    {
        match self {
            PerceptionError::CalibrationRunning => owned("相机外参标定进行中，请在标定结束后运行感知"),
            PerceptionError::NotCalibrated => owned("当前相机尚未配置外参"),
            PerceptionError::NoFrame => owned("尚未收到相机帧"),
            PerceptionError::NoResetTarget => owned("请选择要重置的深度相机"),
            PerceptionError::UnsupportedAction(a) => {
                let mut m = owned("perception request action ");
                m.append(action_label(*a));
                m.append(" is not supported");
                m
            },
        }
    }
}

pub open spec fn names_of(values: Seq<String>) -> Seq<Seq<char>> {
    values.map_values(|s: String| s@)
}

fn listed(values: &Vec<String>, id: &str) -> (res: bool)
    ensures
        res == names_of(values@).contains(id@),
{
    let ghost v = names_of(values@);
    let mut i: usize = 0;
    while i < values.len()
        invariant
            i <= values@.len(),
            v == names_of(values@),
            forall|k: int| 0 <= k < i ==> v[k] != id@,
        decreases values@.len() - i,
    {
        if str_eq(values[i].as_str(), id) {
            assert(v[i as int] == id@);
            return true;
        }
        i += 1;
    }
    false
}

/// Whether the configured camera has extrinsics: a saved calibration, or a preset one.
pub fn has_calibration(source_id: Option<&str>, calibrated: &Vec<String>, presets: &Vec<String>) -> (res: bool)
    ensures
        res == (source_id matches Some(id) && (names_of(calibrated@).contains(id@) || names_of(
            presets@,
        ).contains(id@))),
{
    match source_id {
        Some(id) => listed(calibrated, id) || listed(presets, id),
        None => false,
    }
}

/// Whether a scene may be computed now: not during calibration, only with extrinsics,
/// and only with a camera frame (checked in that order).
pub fn scene_preconditions(calibration_active: bool, calibrated: bool, has_frame: bool) -> (res: Result<
    (),
    PerceptionError,
>)
    ensures
        calibration_active ==> res matches Err(PerceptionError::CalibrationRunning),
        !calibration_active && !calibrated ==> res matches Err(PerceptionError::NotCalibrated),
        !calibration_active && calibrated && !has_frame ==> res matches Err(PerceptionError::NoFrame),
        !calibration_active && calibrated && has_frame ==> res is Ok,
{
    if calibration_active {
        Err(PerceptionError::CalibrationRunning)
    } else if !calibrated {
        Err(PerceptionError::NotCalibrated)
    } else if !has_frame {
        Err(PerceptionError::NoFrame)
    } else {
        Ok(())
    }
}

/// The camera a reset clears: the one the request names, else the configured one.
pub fn reset_target(requested: Option<&str>, configured: Option<&str>) -> (res: Result<String, PerceptionError>)
    ensures
        match requested {
            Some(r) => res matches Ok(s) && s@ == r@,
            None => match configured {
                Some(c) => res matches Ok(s) && s@ == c@,
                None => res matches Err(PerceptionError::NoResetTarget),
            },
        },
{
    match requested {
        Some(r) => Ok(owned(r)),
        None => match configured {
            Some(c) => Ok(owned(c)),
            None => Err(PerceptionError::NoResetTarget),
        },
    }
}

/// Whether a handled request changes the saved configuration (refreshing and
/// snapshots do not).
pub fn persists(action: RequestAction) -> (res: bool)
    ensures
        res == !(action == RequestAction::Refresh || action == RequestAction::Snapshot),
{
    !(action == RequestAction::Refresh || action == RequestAction::Snapshot)
}

/// The settings a perception request edits.
pub struct PerceptionSettings {
    pub enabled: bool,
    pub classes: Vec<String>,
    pub placement_labels: Vec<String>,
}

/// What a settings request does: `Apply` takes the given classes and placement labels
/// and enables the node; `Cancel` and `Disconnect` disable it; `Refresh`, `Snapshot` and
/// `Reset` leave the settings alone; any other action is refused.
pub fn apply_perception_settings(
    current: PerceptionSettings,
    action: RequestAction,
    classes: Option<Vec<String>>,
    placement_labels: Option<Vec<String>>,
) -> (res: Result<PerceptionSettings, PerceptionError>)
    ensures
        action == RequestAction::Apply ==> (res matches Ok(next) && next.enabled && next.classes == (
        match classes {
            Some(c) => c,
            None => current.classes,
        }) && next.placement_labels == (match placement_labels {
            Some(l) => l,
            None => current.placement_labels,
        })),
        (action == RequestAction::Cancel || action == RequestAction::Disconnect) ==> (res matches Ok(next)
            && !next.enabled && next.classes == current.classes && next.placement_labels
            == current.placement_labels),
        (action == RequestAction::Refresh || action == RequestAction::Snapshot || action
            == RequestAction::Reset) ==> res == Ok::<PerceptionSettings, PerceptionError>(current),
        !(action == RequestAction::Apply || action == RequestAction::Cancel || action
            == RequestAction::Disconnect || action == RequestAction::Refresh || action
            == RequestAction::Snapshot || action == RequestAction::Reset) ==> (res matches Err(
            PerceptionError::UnsupportedAction(a),
        ) && a == action),
{
    let mut next = current;
    match action {
        RequestAction::Apply => {
            match classes {
                Some(c) => {
                    next.classes = c;
                },
                None => {},
            }
            match placement_labels {
                Some(l) => {
                    next.placement_labels = l;
                },
                None => {},
            }
            next.enabled = true;
            Ok(next)
        },
        RequestAction::Cancel | RequestAction::Disconnect => {
            next.enabled = false;
            Ok(next)
        },
        RequestAction::Refresh | RequestAction::Snapshot | RequestAction::Reset => Ok(next),
        _ => Err(PerceptionError::UnsupportedAction(action)),
    }
}

} // verus!
