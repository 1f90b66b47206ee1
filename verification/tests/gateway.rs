use arm_backend::gateway::{
    answers_pending_request, asset_bytes, mirrored_namespaces, model_asset_request_id, namespace_for_input,
    perception_asset_request_id, publication_namespaces, snapshot_request_id, SocketFlow, SocketMessage,
    SocketStep,
};
use arm_backend::snapshot_store::SnapshotStore;

#[test]
fn every_state_input_has_one_web_namespace() {
    for input in [
        "system_readiness",
        "discovery_state",
        "absolute_pose",
        "control_input",
        "spatial_pose",
        "spatial_config_state",
        "transformed_control",
        "robot_model_info",
        "motion_state",
        "arm_state",
        "execution_info",
        "transport_state",
    ] {
        assert!(namespace_for_input(input).is_some(), "{input}");
    }
}

#[test]
fn model_feedback_and_target_state_are_available_to_both_robot_pages() {
    assert_eq!(mirrored_namespaces("arm_state"), ["motion", "perception"]);
    assert_eq!(mirrored_namespaces("robot_model_info"), ["arm-execution", "perception"]);
    assert_eq!(mirrored_namespaces("motion_state"), ["arm-execution", "perception"]);
    assert_eq!(mirrored_namespaces("manipulation_state"), ["arm-execution"]);
    assert!(mirrored_namespaces("world_scene").is_empty());
    assert!(mirrored_namespaces("absolute_pose").is_empty());
}

#[test]
fn generic_gateway_snapshot_does_not_require_a_robot_shape() {
    let mut store: SnapshotStore<serde_json::Value> = SnapshotStore::new();
    let mut model = serde_json::Map::new();
    let mut joints = Vec::new();
    for key in ["a", "b", "c"] {
        let mut joint = serde_json::Map::new();
        joint.insert("key".to_owned(), serde_json::Value::String(key.to_owned()));
        joints.push(serde_json::Value::Object(joint));
    }
    model.insert("joints".to_owned(), serde_json::Value::Array(joints));
    store.update("motion", "robot_model_info", serde_json::Value::Object(model));
    let stored = store.get("motion", "robot_model_info").unwrap();
    assert_eq!(stored["joints"].as_array().unwrap().len(), 3);
    assert_eq!(store.sequence("motion"), 1);
}

#[test]
fn namespaces_of_each_page() {
    assert_eq!(namespace_for_input("system_readiness"), Some("system"));
    assert_eq!(namespace_for_input("bindings_request_result"), Some("tracking"));
    assert_eq!(namespace_for_input("spatial_request_result"), Some("spatial"));
    assert_eq!(namespace_for_input("actuator_status"), Some("motion"));
    assert_eq!(namespace_for_input("manipulation_request_result"), Some("perception"));
    assert_eq!(namespace_for_input("execution_service_state"), Some("arm-execution"));
    assert_eq!(namespace_for_input("unknown_output"), None);
}

#[test]
fn inputs_are_published_to_mirrors_then_their_own_page() {
    assert_eq!(publication_namespaces("arm_state"), ["motion", "perception", "arm-execution"]);
    assert_eq!(publication_namespaces("world_scene"), ["perception"]);
    assert!(publication_namespaces("nothing").is_empty());
}

#[test]
fn request_results_and_asset_responses_answer_pending_requests() {
    assert!(answers_pending_request("motion_request_result"));
    assert!(answers_pending_request("model_asset_response"));
    assert!(answers_pending_request("perception_asset_response"));
    assert!(answers_pending_request("actuator_status"));
    assert!(!answers_pending_request("motion_state"));
    assert!(!answers_pending_request("request_result_late"));
}

#[test]
fn request_ids_name_their_output_and_sequence() {
    assert_eq!(snapshot_request_id("motion_snapshot"), "snapshot-motion_snapshot");
    assert_eq!(model_asset_request_id(12, "meshes/base.stl"), "asset-12-meshes/base.stl");
    assert_eq!(perception_asset_request_id(0, "mask-0.png"), "perception-asset-0-mask-0.png");
}

#[test]
fn asset_content_keeps_integer_entries_as_bytes() {
    assert_eq!(asset_bytes(&vec![Some(1), None, Some(255), Some(256 + 7)]), vec![1u8, 255, 7]);
    assert!(asset_bytes(&vec![]).is_empty());
}

#[test]
fn socket_updates_wait_for_the_page() {
    let mut flow = SocketFlow::new();
    assert!(!flow.wants_update());
    assert!(flow.received(SocketMessage::Other) == SocketStep::Continue);
    assert!(!flow.wants_update());
    assert!(flow.received(SocketMessage::Next) == SocketStep::Continue);
    assert!(flow.wants_update());
    flow.sent();
    assert!(!flow.wants_update());
    assert!(flow.received(SocketMessage::Closed) == SocketStep::Stop);
}

#[test]
fn snapshot_store_reads_back_what_was_written() {
    let mut store: SnapshotStore<u32> = SnapshotStore::new();
    assert_eq!(store.sequence("motion"), 0);
    assert!(store.get("motion", "arm_state").is_none());
    store.update("motion", "arm_state", 1);
    store.update("perception", "arm_state", 2);
    store.update("motion", "arm_state", 3);
    assert_eq!(store.get("motion", "arm_state"), Some(&3));
    assert_eq!(store.get("perception", "arm_state"), Some(&2));
    assert_eq!(store.sequence("motion"), 2);
    assert_eq!(store.sequence("perception"), 1);
    assert_eq!(store.keys("motion"), vec!["arm_state".to_owned()]);
}

#[test]
fn each_input_reaches_each_page_at_most_once() {
    for input in ["arm_state", "robot_model_info", "motion_state", "manipulation_state", "world_scene", "unknown"] {
        let own = namespace_for_input(input);
        let mirrors = mirrored_namespaces(input);
        assert!(mirrors.is_empty() || own.is_some());
        assert!(mirrors.iter().all(|n| Some(*n) != own));
        let all = publication_namespaces(input);
        for (i, a) in all.iter().enumerate() {
            assert!(all[i + 1..].iter().all(|b| b != a));
        }
    }
}
