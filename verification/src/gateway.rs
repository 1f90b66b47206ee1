//! Web gateway routing: which web namespace shows each node output, which outputs answer
//! a pending HTTP request, and the per-namespace snapshot store.
use vstd::prelude::*;
use crate::text::{decimal_text, ends_with, owned, push_decimal, spec_ends_with, str_eq};

verus! {

/// The web namespace whose page owns an input.
pub open spec fn namespace_table(input: Seq<char>) -> Option<Seq<char>> {
    if input == "system_readiness"@ {
        Some("system"@)
    } else if input == "discovery_state"@ || input == "absolute_pose"@ || input == "control_input"@
        || input == "pose_source_request_result"@ || input == "bindings_request_result"@ || input
        == "source_name_request_result"@ || input == "simulation_request_result"@ {
        Some("tracking"@)
    } else if input == "spatial_pose"@ || input == "spatial_config_state"@ || input
        == "spatial_service_state"@ || input == "transformed_control"@ || input
        == "spatial_request_result"@ {
        Some("spatial"@)
    } else if input == "robot_model_info"@ || input == "motion_state"@ || input == "motion_status"@
        || input == "motion_request_result"@ || input == "actuator_status"@ || input
        == "mode_request_result"@ {
        Some("motion"@)
    } else if input == "perception_state"@ || input == "world_scene"@ || input
        == "perception_request_result"@ || input == "calibration_state"@ || input
        == "calibration_request_result"@ || input == "manipulation_state"@ || input
        == "manipulation_request_result"@ {
        Some("perception"@)
    } else if input == "execution_info"@ || input == "transport_state"@ || input
        == "execution_service_state"@ || input == "arm_state"@ || input
        == "execution_request_result"@ {
        Some("arm-execution"@)
    } else {
        None
    }
}

/// The other pages that also show an input.
pub open spec fn mirror_table(input: Seq<char>) -> Seq<Seq<char>> {
    if input == "arm_state"@ {
        seq!["motion"@, "perception"@]
    } else if input == "robot_model_info"@ || input == "motion_state"@ {
        seq!["arm-execution"@, "perception"@]
    } else if input == "manipulation_state"@ {
        seq!["arm-execution"@]
    } else {
        Seq::empty()
    }
}

/// Whether an input may answer a pending HTTP request.
pub open spec fn answers_requests(input: Seq<char>) -> bool {
    spec_ends_with(input, "request_result"@) || input == "model_asset_response"@ || input
        == "perception_asset_response"@ || input == "actuator_status"@
}

pub open spec fn opt_str_view(value: Option<&str>) -> Option<Seq<char>> {
    match value {
        Some(s) => Some(s@),
        None => None,
    }
}

fn any_of(input: &str, names: &Vec<&'static str>) -> (res: bool)
    ensures
        res == exists|i: int| 0 <= i < names@.len() && input@ == names@[i]@,
{
    let mut i: usize = 0;
    while i < names.len()
        invariant
            i <= names@.len(),
            forall|j: int| 0 <= j < i ==> input@ != names@[j]@,
        decreases names@.len() - i,
    {
        if str_eq(input, names[i]) {
            return true;
        }
        i += 1;
    }
    false
}

/// The web namespace whose page owns an input, if any.
pub fn namespace_for_input(input: &str) -> (res: Option<&'static str>)
    ensures
        opt_str_view(res) == namespace_table(input@),
{
    if str_eq(input, "system_readiness") {
        return Some("system");
    }
    let tracking = vec![
        "discovery_state",
        "absolute_pose",
        "control_input",
        "pose_source_request_result",
        "bindings_request_result",
        "source_name_request_result",
        "simulation_request_result",
    ];
    if any_of(input, &tracking) {
        return Some("tracking");
    }
    let spatial = vec![
        "spatial_pose",
        "spatial_config_state",
        "spatial_service_state",
        "transformed_control",
        "spatial_request_result",
    ];
    if any_of(input, &spatial) {
        return Some("spatial");
    }
    let motion = vec![
        "robot_model_info",
        "motion_state",
        "motion_status",
        "motion_request_result",
        "actuator_status",
        "mode_request_result",
    ];
    if any_of(input, &motion) {
        return Some("motion");
    }
    let perception = vec![
        "perception_state",
        "world_scene",
        "perception_request_result",
        "calibration_state",
        "calibration_request_result",
        "manipulation_state",
        "manipulation_request_result",
    ];
    if any_of(input, &perception) {
        return Some("perception");
    }
    let execution = vec![
        "execution_info",
        "transport_state",
        "execution_service_state",
        "arm_state",
        "execution_request_result",
    ];
    if any_of(input, &execution) {
        return Some("arm-execution");
    }
    None
}

/// The other pages that also show an input, in publication order.
pub fn mirrored_namespaces(input: &str) -> (res: Vec<&'static str>)
    ensures
        res@.map_values(|s: &str| s@) == mirror_table(input@),
{
    let res = if str_eq(input, "arm_state") {
        vec!["motion", "perception"]
    } else if str_eq(input, "robot_model_info") || str_eq(input, "motion_state") {
        vec!["arm-execution", "perception"]
    } else if str_eq(input, "manipulation_state") {
        vec!["arm-execution"]
    } else {
        Vec::new()
    };
    assert(res@.map_values(|s: &str| s@) =~= mirror_table(input@));
    res
}

/// The page that owns each node output: the readiness summary on the system page; pose
/// sources, bindings and simulation on tracking; the spatial transform on spatial; the
/// robot model, motion state and actuators on motion; perception, the scene, calibration
/// and manipulation on perception; execution and the arm's state on arm-execution.
pub proof fn page_of_each_output()
    ensures
        namespace_table("system_readiness"@) == Some("system"@),
        namespace_table("discovery_state"@) == Some("tracking"@),
        namespace_table("absolute_pose"@) == Some("tracking"@),
        namespace_table("control_input"@) == Some("tracking"@),
        namespace_table("pose_source_request_result"@) == Some("tracking"@),
        namespace_table("bindings_request_result"@) == Some("tracking"@),
        namespace_table("source_name_request_result"@) == Some("tracking"@),
        namespace_table("simulation_request_result"@) == Some("tracking"@),
        namespace_table("spatial_pose"@) == Some("spatial"@),
        namespace_table("spatial_config_state"@) == Some("spatial"@),
        namespace_table("spatial_service_state"@) == Some("spatial"@),
        namespace_table("transformed_control"@) == Some("spatial"@),
        namespace_table("spatial_request_result"@) == Some("spatial"@),
        namespace_table("robot_model_info"@) == Some("motion"@),
        namespace_table("motion_state"@) == Some("motion"@),
        namespace_table("motion_status"@) == Some("motion"@),
        namespace_table("motion_request_result"@) == Some("motion"@),
        namespace_table("actuator_status"@) == Some("motion"@),
        namespace_table("mode_request_result"@) == Some("motion"@),
        namespace_table("perception_state"@) == Some("perception"@),
        namespace_table("world_scene"@) == Some("perception"@),
        namespace_table("perception_request_result"@) == Some("perception"@),
        namespace_table("calibration_state"@) == Some("perception"@),
        namespace_table("calibration_request_result"@) == Some("perception"@),
        namespace_table("manipulation_state"@) == Some("perception"@),
        namespace_table("manipulation_request_result"@) == Some("perception"@),
        namespace_table("execution_info"@) == Some("arm-execution"@),
        namespace_table("transport_state"@) == Some("arm-execution"@),
        namespace_table("execution_service_state"@) == Some("arm-execution"@),
        namespace_table("arm_state"@) == Some("arm-execution"@),
        namespace_table("execution_request_result"@) == Some("arm-execution"@),
        forall|input: Seq<char>| input != "system_readiness"@ && input != "discovery_state"@ && input != "absolute_pose"@ && input != "control_input"@ && input != "pose_source_request_result"@ && input != "bindings_request_result"@ && input != "source_name_request_result"@ && input != "simulation_request_result"@ && input != "spatial_pose"@ && input != "spatial_config_state"@ && input != "spatial_service_state"@ && input != "transformed_control"@ && input != "spatial_request_result"@ && input != "robot_model_info"@ && input != "motion_state"@ && input != "motion_status"@ && input != "motion_request_result"@ && input != "actuator_status"@ && input != "mode_request_result"@ && input != "perception_state"@ && input != "world_scene"@ && input != "perception_request_result"@ && input != "calibration_state"@ && input != "calibration_request_result"@ && input != "manipulation_state"@ && input != "manipulation_request_result"@ && input != "execution_info"@ && input != "transport_state"@ && input != "execution_service_state"@ && input != "arm_state"@ && input != "execution_request_result"@ ==> #[trigger] namespace_table(input) is None,
{
    reveal_strlit("system_readiness");
    reveal_strlit("discovery_state");
    reveal_strlit("absolute_pose");
    reveal_strlit("control_input");
    reveal_strlit("pose_source_request_result");
    reveal_strlit("bindings_request_result");
    reveal_strlit("source_name_request_result");
    reveal_strlit("simulation_request_result");
    reveal_strlit("spatial_pose");
    reveal_strlit("spatial_config_state");
    reveal_strlit("spatial_service_state");
    reveal_strlit("transformed_control");
    reveal_strlit("spatial_request_result");
    reveal_strlit("robot_model_info");
    reveal_strlit("motion_state");
    reveal_strlit("motion_status");
    reveal_strlit("motion_request_result");
    reveal_strlit("actuator_status");
    reveal_strlit("mode_request_result");
    reveal_strlit("perception_state");
    reveal_strlit("world_scene");
    reveal_strlit("perception_request_result");
    reveal_strlit("calibration_state");
    reveal_strlit("calibration_request_result");
    reveal_strlit("manipulation_state");
    reveal_strlit("manipulation_request_result");
    reveal_strlit("execution_info");
    reveal_strlit("transport_state");
    reveal_strlit("execution_service_state");
    reveal_strlit("arm_state");
    reveal_strlit("execution_request_result");
    reveal_strlit("arm-execution");
    reveal_strlit("motion");
    reveal_strlit("perception");
    reveal_strlit("spatial");
    reveal_strlit("system");
    reveal_strlit("tracking");
    assert("system_readiness"@.len() == 16);
    assert("discovery_state"@.len() == 15);
    assert("absolute_pose"@.len() == 13);
    assert("control_input"@.len() == 13);
    assert("pose_source_request_result"@.len() == 26);
    assert("bindings_request_result"@.len() == 23);
    assert("source_name_request_result"@.len() == 26);
    assert("simulation_request_result"@.len() == 25);
    assert("spatial_pose"@.len() == 12);
    assert("spatial_config_state"@.len() == 20);
    assert("spatial_service_state"@.len() == 21);
    assert("transformed_control"@.len() == 19);
    assert("spatial_request_result"@.len() == 22);
    assert("robot_model_info"@.len() == 16);
    assert("motion_state"@.len() == 12);
    assert("motion_status"@.len() == 13);
    assert("motion_request_result"@.len() == 21);
    assert("actuator_status"@.len() == 15);
    assert("mode_request_result"@.len() == 19);
    assert("perception_state"@.len() == 16);
    assert("world_scene"@.len() == 11);
    assert("perception_request_result"@.len() == 25);
    assert("calibration_state"@.len() == 17);
    assert("calibration_request_result"@.len() == 26);
    assert("manipulation_state"@.len() == 18);
    assert("manipulation_request_result"@.len() == 27);
    assert("execution_info"@.len() == 14);
    assert("transport_state"@.len() == 15);
    assert("execution_service_state"@.len() == 23);
    assert("arm_state"@.len() == 9);
    assert("execution_request_result"@.len() == 24);
    assert("control_input"@[0] != "absolute_pose"@[0]);
    assert("source_name_request_result"@[0] != "pose_source_request_result"@[0]);
    assert("robot_model_info"@[0] != "system_readiness"@[0]);
    assert("motion_state"@[0] != "spatial_pose"@[0]);
    assert("motion_status"@[0] != "absolute_pose"@[0]);
    assert("motion_status"@[0] != "control_input"@[0]);
    assert("motion_request_result"@[0] != "spatial_service_state"@[0]);
    assert("actuator_status"@[0] != "discovery_state"@[0]);
    assert("mode_request_result"@[0] != "transformed_control"@[0]);
    assert("perception_state"@[0] != "system_readiness"@[0]);
    assert("perception_state"@[0] != "robot_model_info"@[0]);
    assert("perception_request_result"@[0] != "simulation_request_result"@[0]);
    assert("calibration_request_result"@[0] != "pose_source_request_result"@[0]);
    assert("calibration_request_result"@[0] != "source_name_request_result"@[0]);
    assert("transport_state"@[0] != "discovery_state"@[0]);
    assert("transport_state"@[0] != "actuator_status"@[0]);
    assert("execution_service_state"@[0] != "bindings_request_result"@[0]);
}

/// The other pages that show an output: the arm's state also on motion and perception,
/// the robot model and motion state also on arm-execution and perception, the
/// manipulation state also on arm-execution; no other output is mirrored.
pub proof fn mirrors_of_each_output()
    ensures
        mirror_table("arm_state"@) == seq!["motion"@, "perception"@],
        mirror_table("robot_model_info"@) == seq!["arm-execution"@, "perception"@],
        mirror_table("motion_state"@) == seq!["arm-execution"@, "perception"@],
        mirror_table("manipulation_state"@) == seq!["arm-execution"@],
        forall|input: Seq<char>|
            input != "arm_state"@ && input != "robot_model_info"@ && input != "motion_state"@ && input
                != "manipulation_state"@ ==> #[trigger] mirror_table(input).len() == 0,
{
    reveal_strlit("arm_state");
    reveal_strlit("robot_model_info");
    reveal_strlit("motion_state");
    reveal_strlit("manipulation_state");
    assert("robot_model_info"@.len() != "motion_state"@.len());
    assert("arm_state"@.len() != "motion_state"@.len());
    assert("arm_state"@.len() != "robot_model_info"@.len());
    assert("manipulation_state"@.len() != "arm_state"@.len());
    assert("manipulation_state"@.len() != "robot_model_info"@.len());
    assert("manipulation_state"@.len() != "motion_state"@.len());
}

/// The pages that mirror an input are other than the page that owns it, none comes
/// twice, and only an input that has an owning page is mirrored: each input reaches each
/// page at most once.
pub proof fn mirrors_are_other_pages(input: Seq<char>)
    ensures
        mirror_table(input).len() > 0 ==> namespace_table(input) is Some,
        forall|k: int|
            0 <= k < mirror_table(input).len() ==> Some(#[trigger] mirror_table(input)[k]) != namespace_table(input),
        mirror_table(input).no_duplicates(),
        (mirror_table(input) + match namespace_table(input) {
            Some(ns) => seq![ns],
            None => Seq::empty(),
        }).no_duplicates(),
{
    reveal_strlit("system_readiness");
    reveal_strlit("system");
    reveal_strlit("discovery_state");
    reveal_strlit("absolute_pose");
    reveal_strlit("control_input");
    reveal_strlit("pose_source_request_result");
    reveal_strlit("bindings_request_result");
    reveal_strlit("source_name_request_result");
    reveal_strlit("simulation_request_result");
    reveal_strlit("tracking");
    reveal_strlit("spatial_pose");
    reveal_strlit("spatial_config_state");
    reveal_strlit("spatial_service_state");
    reveal_strlit("transformed_control");
    reveal_strlit("spatial_request_result");
    reveal_strlit("spatial");
    reveal_strlit("robot_model_info");
    reveal_strlit("motion_state");
    reveal_strlit("motion_status");
    reveal_strlit("motion_request_result");
    reveal_strlit("actuator_status");
    reveal_strlit("mode_request_result");
    reveal_strlit("motion");
    reveal_strlit("perception_state");
    reveal_strlit("world_scene");
    reveal_strlit("perception_request_result");
    reveal_strlit("calibration_state");
    reveal_strlit("calibration_request_result");
    reveal_strlit("manipulation_state");
    reveal_strlit("manipulation_request_result");
    reveal_strlit("perception");
    reveal_strlit("execution_info");
    reveal_strlit("transport_state");
    reveal_strlit("execution_service_state");
    reveal_strlit("arm_state");
    reveal_strlit("execution_request_result");
    reveal_strlit("arm-execution");
    let m = "motion"@;
    let p = "perception"@;
    let a = "arm-execution"@;
    assert(m[0] != p[0] && m[0] != a[0] && p[0] != a[0]);
    let t = mirror_table(input);
    if input == "arm_state"@ {
        assert("arm_state"@.len() != "system_readiness"@.len());
        assert("arm_state"@.len() != "discovery_state"@.len());
        assert("arm_state"@.len() != "absolute_pose"@.len());
        assert("arm_state"@.len() != "control_input"@.len());
        assert("arm_state"@.len() != "pose_source_request_result"@.len());
        assert("arm_state"@.len() != "bindings_request_result"@.len());
        assert("arm_state"@.len() != "source_name_request_result"@.len());
        assert("arm_state"@.len() != "simulation_request_result"@.len());
        assert("arm_state"@.len() != "spatial_pose"@.len());
        assert("arm_state"@.len() != "spatial_config_state"@.len());
        assert("arm_state"@.len() != "spatial_service_state"@.len());
        assert("arm_state"@.len() != "transformed_control"@.len());
        assert("arm_state"@.len() != "spatial_request_result"@.len());
        assert("arm_state"@.len() != "robot_model_info"@.len());
        assert("arm_state"@.len() != "motion_state"@.len());
        assert("arm_state"@.len() != "motion_status"@.len());
        assert("arm_state"@.len() != "motion_request_result"@.len());
        assert("arm_state"@.len() != "actuator_status"@.len());
        assert("arm_state"@.len() != "mode_request_result"@.len());
        assert("arm_state"@.len() != "perception_state"@.len());
        assert("arm_state"@.len() != "world_scene"@.len());
        assert("arm_state"@.len() != "perception_request_result"@.len());
        assert("arm_state"@.len() != "calibration_state"@.len());
        assert("arm_state"@.len() != "calibration_request_result"@.len());
        assert("arm_state"@.len() != "manipulation_state"@.len());
        assert("arm_state"@.len() != "manipulation_request_result"@.len());
        assert("arm_state"@.len() != "execution_info"@.len());
        assert("arm_state"@.len() != "transport_state"@.len());
        assert("arm_state"@.len() != "execution_service_state"@.len());
        assert("arm_state"@.len() != "execution_request_result"@.len());
        assert(namespace_table(input) == Some(a));
        assert(t == seq![m, p]);
        let all = t + seq![a];
        assert(all =~= seq![m, p, a]);
    } else if input == "robot_model_info"@ || input == "motion_state"@ {
        if input == "robot_model_info"@ {
            assert("robot_model_info"@[0] != "system_readiness"@[0]);
            assert("robot_model_info"@.len() != "discovery_state"@.len());
            assert("robot_model_info"@.len() != "absolute_pose"@.len());
            assert("robot_model_info"@.len() != "control_input"@.len());
            assert("robot_model_info"@.len() != "pose_source_request_result"@.len());
            assert("robot_model_info"@.len() != "bindings_request_result"@.len());
            assert("robot_model_info"@.len() != "source_name_request_result"@.len());
            assert("robot_model_info"@.len() != "simulation_request_result"@.len());
            assert("robot_model_info"@.len() != "spatial_pose"@.len());
            assert("robot_model_info"@.len() != "spatial_config_state"@.len());
            assert("robot_model_info"@.len() != "spatial_service_state"@.len());
            assert("robot_model_info"@.len() != "transformed_control"@.len());
            assert("robot_model_info"@.len() != "spatial_request_result"@.len());
            assert("robot_model_info"@.len() != "motion_state"@.len());
            assert("robot_model_info"@.len() != "motion_status"@.len());
            assert("robot_model_info"@.len() != "motion_request_result"@.len());
            assert("robot_model_info"@.len() != "actuator_status"@.len());
            assert("robot_model_info"@.len() != "mode_request_result"@.len());
            assert("robot_model_info"@[0] != "perception_state"@[0]);
            assert("robot_model_info"@.len() != "world_scene"@.len());
            assert("robot_model_info"@.len() != "perception_request_result"@.len());
            assert("robot_model_info"@.len() != "calibration_state"@.len());
            assert("robot_model_info"@.len() != "calibration_request_result"@.len());
            assert("robot_model_info"@.len() != "manipulation_state"@.len());
            assert("robot_model_info"@.len() != "manipulation_request_result"@.len());
            assert("robot_model_info"@.len() != "execution_info"@.len());
            assert("robot_model_info"@.len() != "transport_state"@.len());
            assert("robot_model_info"@.len() != "execution_service_state"@.len());
            assert("robot_model_info"@.len() != "arm_state"@.len());
            assert("robot_model_info"@.len() != "execution_request_result"@.len());
        } else {
            assert("motion_state"@.len() != "system_readiness"@.len());
            assert("motion_state"@.len() != "discovery_state"@.len());
            assert("motion_state"@.len() != "absolute_pose"@.len());
            assert("motion_state"@.len() != "control_input"@.len());
            assert("motion_state"@.len() != "pose_source_request_result"@.len());
            assert("motion_state"@.len() != "bindings_request_result"@.len());
            assert("motion_state"@.len() != "source_name_request_result"@.len());
            assert("motion_state"@.len() != "simulation_request_result"@.len());
            assert("motion_state"@[0] != "spatial_pose"@[0]);
            assert("motion_state"@.len() != "spatial_config_state"@.len());
            assert("motion_state"@.len() != "spatial_service_state"@.len());
            assert("motion_state"@.len() != "transformed_control"@.len());
            assert("motion_state"@.len() != "spatial_request_result"@.len());
            assert("motion_state"@.len() != "robot_model_info"@.len());
            assert("motion_state"@.len() != "motion_status"@.len());
            assert("motion_state"@.len() != "motion_request_result"@.len());
            assert("motion_state"@.len() != "actuator_status"@.len());
            assert("motion_state"@.len() != "mode_request_result"@.len());
            assert("motion_state"@.len() != "perception_state"@.len());
            assert("motion_state"@.len() != "world_scene"@.len());
            assert("motion_state"@.len() != "perception_request_result"@.len());
            assert("motion_state"@.len() != "calibration_state"@.len());
            assert("motion_state"@.len() != "calibration_request_result"@.len());
            assert("motion_state"@.len() != "manipulation_state"@.len());
            assert("motion_state"@.len() != "manipulation_request_result"@.len());
            assert("motion_state"@.len() != "execution_info"@.len());
            assert("motion_state"@.len() != "transport_state"@.len());
            assert("motion_state"@.len() != "execution_service_state"@.len());
            assert("motion_state"@.len() != "arm_state"@.len());
            assert("motion_state"@.len() != "execution_request_result"@.len());
        }
        assert(namespace_table(input) == Some(m));
        assert(t == seq![a, p]);
        let all = t + seq![m];
        assert(all =~= seq![a, p, m]);
    } else if input == "manipulation_state"@ {
        assert("manipulation_state"@.len() != "system_readiness"@.len());
        assert("manipulation_state"@.len() != "discovery_state"@.len());
        assert("manipulation_state"@.len() != "absolute_pose"@.len());
        assert("manipulation_state"@.len() != "control_input"@.len());
        assert("manipulation_state"@.len() != "pose_source_request_result"@.len());
        assert("manipulation_state"@.len() != "bindings_request_result"@.len());
        assert("manipulation_state"@.len() != "source_name_request_result"@.len());
        assert("manipulation_state"@.len() != "simulation_request_result"@.len());
        assert("manipulation_state"@.len() != "spatial_pose"@.len());
        assert("manipulation_state"@.len() != "spatial_config_state"@.len());
        assert("manipulation_state"@.len() != "spatial_service_state"@.len());
        assert("manipulation_state"@.len() != "transformed_control"@.len());
        assert("manipulation_state"@.len() != "spatial_request_result"@.len());
        assert("manipulation_state"@.len() != "robot_model_info"@.len());
        assert("manipulation_state"@.len() != "motion_state"@.len());
        assert("manipulation_state"@.len() != "motion_status"@.len());
        assert("manipulation_state"@.len() != "motion_request_result"@.len());
        assert("manipulation_state"@.len() != "actuator_status"@.len());
        assert("manipulation_state"@.len() != "mode_request_result"@.len());
        assert("manipulation_state"@.len() != "perception_state"@.len());
        assert("manipulation_state"@.len() != "world_scene"@.len());
        assert("manipulation_state"@.len() != "perception_request_result"@.len());
        assert("manipulation_state"@.len() != "calibration_state"@.len());
        assert("manipulation_state"@.len() != "calibration_request_result"@.len());
        assert("manipulation_state"@.len() != "manipulation_request_result"@.len());
        assert("manipulation_state"@.len() != "execution_info"@.len());
        assert("manipulation_state"@.len() != "transport_state"@.len());
        assert("manipulation_state"@.len() != "execution_service_state"@.len());
        assert("manipulation_state"@.len() != "arm_state"@.len());
        assert("manipulation_state"@.len() != "execution_request_result"@.len());
        assert(namespace_table(input) == Some(p));
        assert(t == seq![a]);
        let all = t + seq![p];
        assert(all =~= seq![a, p]);
    } else {
        assert(t == Seq::<Seq<char>>::empty());
        match namespace_table(input) {
            Some(ns) => {
                assert(t + seq![ns] =~= seq![ns]);
            },
            None => {
                assert(t + Seq::<Seq<char>>::empty() =~= t);
            },
        }
    }
}

/// Whether an input may answer a pending HTTP request with the same request id.
pub fn answers_pending_request(input: &str) -> (res: bool)
    ensures
        res == answers_requests(input@),
{
    ends_with(input, "request_result") || str_eq(input, "model_asset_response") || str_eq(
        input,
        "perception_asset_response",
    ) || str_eq(input, "actuator_status")
}

/// Every namespace an input is published to: its mirrors first, then its own page.
pub fn publication_namespaces(input: &str) -> (res: Vec<&'static str>)
    ensures
        res@.map_values(|s: &str| s@) == mirror_table(input@) + match namespace_table(input@) {
            Some(ns) => seq![ns],
            None => Seq::empty(),
        },
{
    let mut res = mirrored_namespaces(input);
    let ghost mirrors = res@.map_values(|s: &str| s@);
    match namespace_for_input(input) {
        Some(ns) => {
            res.push(ns);
            assert(res@.map_values(|s: &str| s@) =~= mirrors + seq![ns@]);
        },
        None => {
            assert(res@.map_values(|s: &str| s@) =~= mirrors + Seq::<Seq<char>>::empty());
        },
    }
    res
}

/// The id of the snapshot request fired at an output.
pub fn snapshot_request_id(output: &str) -> (res: String)
    ensures
        res@ == "snapshot-"@ + output@,
{
    let mut id = owned("snapshot-");
    id.append(output);
    id
}

/// The id of the `sequence`-th model asset request for a path.
pub fn model_asset_request_id(sequence: u64, path: &str) -> (res: String)
    ensures
        res@ == "asset-"@ + decimal_text(sequence as nat) + "-"@ + path@,
{
    let mut id = owned("asset-");
    push_decimal(&mut id, sequence);
    id.append("-");
    id.append(path);
    id
}

/// The id of the `sequence`-th perception asset request for a key.
pub fn perception_asset_request_id(sequence: u64, key: &str) -> (res: String)
    ensures
        res@ == "perception-asset-"@ + decimal_text(sequence as nat) + "-"@ + key@,
{
    let mut id = owned("perception-asset-");
    push_decimal(&mut id, sequence);
    id.append("-");
    id.append(key);
    id
}

/// The bytes of an asset response's `content` array: its unsigned integer entries, each
/// truncated to a byte (`as u8`); other entries are skipped.
pub open spec fn asset_bytes_spec(content: Seq<Option<u64>>) -> Seq<u8>
    decreases content.len(),
{
    if content.len() == 0 {
        Seq::empty()
    } else {
        asset_bytes_spec(content.drop_last()) + match content.last() {
            Some(v) => seq![v as u8],
            None => Seq::empty(),
        }
    }
}

/// The bytes of an asset response (`None` stands for an entry that is not an unsigned
/// integer).
pub fn asset_bytes(content: &Vec<Option<u64>>) -> (res: Vec<u8>)
    ensures
        res@ == asset_bytes_spec(content@),
{
    let mut res: Vec<u8> = Vec::new();
    let mut i: usize = 0;
    assert(content@.take(0) =~= Seq::<Option<u64>>::empty());
    while i < content.len()
        invariant
            i <= content@.len(),
            res@ == asset_bytes_spec(content@.take(i as int)),
        decreases content@.len() - i,
    {
        proof {
            assert(content@.take(i as int + 1).drop_last() =~= content@.take(i as int));
            assert(content@.take(i as int + 1).last() == content@[i as int]);
        }
        match content[i] {
            Some(v) => {
                let ghost before = res@;
                res.push(v as u8);
                assert(res@ =~= before + seq![v as u8]);
            },
            None => {
                assert(res@ =~= res@ + Seq::<u8>::empty());
            },
        }
        i += 1;
    }
    assert(content@.take(content@.len() as int) =~= content@);
    res
}

/// What a page's socket sent.
pub enum SocketMessage {
    /// The text `next`: the page is ready for the next update.
    Next,
    /// Any other message.
    Other,
    /// The socket closed or failed.
    Closed,
}

/// What the socket loop does next.
#[derive(PartialEq, Eq, Structural)]
pub enum SocketStep {
    Continue,
    Stop,
}

/// A page's socket is flow controlled: after the first snapshot, an update is sent only
/// once the page asked for the next one.
pub struct SocketFlow {
    pub ready: bool,
}

impl SocketFlow {
    /// Just after the first snapshot was sent: no update is due until the page asks.
    pub fn new() -> (res: Self)
        ensures
            !res.ready,
    {
        SocketFlow { ready: false }
    }

    /// Whether a namespace change should be sent now.
    pub fn wants_update(&self) -> (res: bool)
        ensures
            res == self.ready,
    {
        self.ready
    }

    /// An update was sent: wait for the page to ask again.
    pub fn sent(&mut self)
        ensures
            !final(self).ready,
    {
        self.ready = false;
    }

    /// The page sent a message.
    pub fn received(&mut self, message: SocketMessage) -> (res: SocketStep)
        ensures
            match message {
                SocketMessage::Next => res == SocketStep::Continue && final(self).ready,
                SocketMessage::Other => res == SocketStep::Continue && final(self).ready == old(self).ready,
                SocketMessage::Closed => res == SocketStep::Stop && final(self).ready == old(self).ready,
            },
    {
        match message {
            SocketMessage::Next => {
                self.ready = true;
                SocketStep::Continue
            },
            SocketMessage::Other => SocketStep::Continue,
            SocketMessage::Closed => SocketStep::Stop,
        }
    }
}

} // verus!
