use arm_backend::binding_status::{binding_states, binding_status, declared_actions};
use arm_backend::controller_input::{ActionBinding, ActionType};
use arm_backend::keyed_list::KeyedList;

fn bind(action: &str, source_id: &str, paths: &[&str], invert: bool) -> ActionBinding {
    ActionBinding {
        action: action.into(),
        action_type: ActionType::Float,
        source_id: source_id.into(),
        component_paths: paths.iter().map(|p| p.to_string()).collect(),
        invert,
    }
}

fn samples(entries: &[(&str, &[&str])]) -> KeyedList<Vec<String>> {
    let mut list = KeyedList::new();
    for (source, components) in entries {
        list.insert(source.to_string(), components.iter().map(|c| c.to_string()).collect());
    }
    list
}

#[test]
fn an_unbound_action_is_inactive() {
    let status = binding_status(&vec![], "primary_tool", &samples(&[]));
    assert!(status.source_id.is_none());
    assert!(!status.invert && !status.active && !status.applicable);
    assert!(status.configured_components.is_empty());
}

#[test]
fn a_binding_is_applicable_when_its_sample_holds_every_component() {
    let bindings = vec![bind("move_up_down", "pad", &["axis/left_y", "button/a"], true)];
    let live = samples(&[("pad", &["axis/left_y", "button/a", "button/b"])]);
    let status = binding_status(&bindings, "move_up_down", &live);
    assert_eq!(status.source_id.as_deref(), Some("pad"));
    assert!(status.invert && status.active && status.applicable);
    assert_eq!(status.configured_components, vec!["axis/left_y".to_string(), "button/a".to_string()]);

    let partial = samples(&[("pad", &["axis/left_y"])]);
    let status = binding_status(&bindings, "move_up_down", &partial);
    assert!(status.active && !status.applicable);

    let silent = binding_status(&bindings, "move_up_down", &samples(&[("other", &["axis/left_y"])]));
    assert!(!silent.active && !silent.applicable);
}

#[test]
fn the_first_binding_of_an_action_counts() {
    let bindings = vec![bind("front_pitch", "first", &[], false), bind("front_pitch", "second", &[], true)];
    let status = binding_status(&bindings, "front_pitch", &samples(&[]));
    assert_eq!(status.source_id.as_deref(), Some("first"));
    assert!(!status.invert);
}

#[test]
fn every_declared_action_is_reported_in_order() {
    let names: Vec<&str> = declared_actions().iter().map(|(name, _)| *name).collect();
    assert_eq!(
        names,
        vec![
            "start_stop",
            "emergency_stop",
            "primary_tool_open",
            "primary_tool",
            "move_forward_back",
            "move_left_right",
            "move_up_down",
            "front_pitch",
            "horizontal_arc",
        ]
    );
    let states = binding_states(&vec![bind("horizontal_arc", "pad", &["axis/right_x"], false)], &samples(&[("pad", &["axis/right_x"])]));
    assert_eq!(states.len(), 9);
    assert!(states[0].1 == ActionType::Boolean);
    assert!(states[8].2.applicable);
    assert!(!states[3].2.active);
}
