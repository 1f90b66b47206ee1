use arm_backend::controller_input::{FeedbackBinding, FeedbackCapability, ListedSource, PoseSourceSelection};
use arm_backend::input_sources::{
    any_virtual_feedback, feedback_applicable, haptic_targets, keeps_virtual_feedback, record_driver_error,
    replace_driver_sources, selection_active, InputDriver,
};
use arm_backend::keyed_list::KeyedList;

fn listed(source_id: &str, driver_id: &str, device_id: &str) -> ListedSource {
    ListedSource {
        source_id: source_id.into(),
        driver_id: driver_id.into(),
        device_id: device_id.into(),
        position_capable: false,
        orientation_capable: false,
        active: true,
    }
}

fn feedback(action: &str, source_id: &str, capability_path: &str) -> FeedbackBinding {
    FeedbackBinding {
        action: action.into(),
        source_id: source_id.into(),
        capability_path: capability_path.into(),
    }
}

#[test]
fn a_driver_report_replaces_only_that_drivers_sources() {
    let mut sources = KeyedList::new();
    sources.insert("sdl3:a".to_string(), listed("sdl3:a", "sdl3", "pad-a"));
    sources.insert("sdl3:b".to_string(), listed("sdl3:b", "sdl3", "pad-b"));
    sources.insert("nolo:1".to_string(), listed("nolo:1", "nolo", "hmd"));

    replace_driver_sources(&mut sources, "sdl3", &vec![listed("sdl3:c", "sdl3", "pad-c")]);

    assert_eq!(sources.len(), 2);
    assert!(sources.get("sdl3:a").is_none());
    assert!(sources.get("sdl3:b").is_none());
    assert_eq!(sources.get("sdl3:c").unwrap().device_id, "pad-c");
    assert_eq!(sources.get("nolo:1").unwrap().device_id, "hmd");
}

#[test]
fn an_empty_report_removes_every_source_of_the_driver() {
    let mut sources = KeyedList::new();
    sources.insert("simulation:0".to_string(), listed("simulation:0", "simulation", "sim"));
    sources.insert("nolo:1".to_string(), listed("nolo:1", "nolo", "hmd"));

    replace_driver_sources(&mut sources, "simulation", &vec![]);

    assert_eq!(sources.len(), 1);
    assert!(sources.get("simulation:0").is_none());
    assert!(sources.get("nolo:1").is_some());
}

#[test]
fn a_later_report_of_an_id_replaces_an_earlier_one() {
    let mut sources = KeyedList::new();
    replace_driver_sources(
        &mut sources,
        "sdl3",
        &vec![listed("sdl3:a", "sdl3", "first"), listed("sdl3:a", "sdl3", "second")],
    );
    assert_eq!(sources.len(), 1);
    assert_eq!(sources.get("sdl3:a").unwrap().device_id, "second");
}

#[test]
fn feedback_is_applicable_only_where_the_source_offers_the_output() {
    let trigger = feedback("primary_tool", "sdl3:a", "feedback/trigger_left");
    let offered = vec![FeedbackCapability {
        path: "feedback/trigger_left".into(),
        localized_name: None,
    }];
    let other = vec![FeedbackCapability {
        path: "feedback/rumble".into(),
        localized_name: None,
    }];
    assert!(feedback_applicable(&trigger, Some(&offered)));
    assert!(!feedback_applicable(&trigger, Some(&other)));
    assert!(!feedback_applicable(&trigger, None));

    let virtual_target = feedback("primary_tool", "virtual-feedback", "feedback/virtual");
    assert!(feedback_applicable(&virtual_target, None));
}

#[test]
fn virtual_feedback_is_kept_only_for_an_action_bound_to_it() {
    let bindings = vec![
        feedback("primary_tool", "virtual-feedback", "feedback/virtual"),
        feedback("start_stop", "sdl3:a", "feedback/rumble"),
    ];
    assert!(keeps_virtual_feedback(&bindings, "primary_tool"));
    assert!(!keeps_virtual_feedback(&bindings, "start_stop"));
    assert!(any_virtual_feedback(&bindings));
    assert!(!any_virtual_feedback(&vec![feedback("start_stop", "sdl3:a", "feedback/rumble")]));
}

#[test]
fn action_feedback_drives_each_bound_device_output_in_order() {
    let bindings = vec![
        feedback("primary_tool", "sdl3:a", "feedback/trigger_left"),
        feedback("primary_tool", "virtual-feedback", "feedback/virtual"),
        feedback("start_stop", "sdl3:a", "feedback/rumble"),
        feedback("primary_tool", "sdl3:b", "feedback/rumble"),
    ];
    let targets = haptic_targets(&bindings, "primary_tool");
    assert_eq!(
        targets,
        vec![
            ("sdl3:a".to_string(), "feedback/trigger_left".to_string()),
            ("sdl3:b".to_string(), "feedback/rumble".to_string()),
        ]
    );
    assert!(haptic_targets(&bindings, "unbound").is_empty());
}

#[test]
fn a_driver_error_is_kept_on_its_entry() {
    let mut drivers = KeyedList::new();
    drivers.insert(
        "sdl3-gamepad".to_string(),
        InputDriver {
            driver_id: "sdl3-gamepad".into(),
            display_name: "SDL3 手柄".into(),
            version: "1.2.0".into(),
            original_error: None,
        },
    );
    record_driver_error(&mut drivers, "sdl3-gamepad", "device lost", "0.1.0");
    let sdl = drivers.get("sdl3-gamepad").unwrap();
    assert_eq!(sdl.display_name, "SDL3 手柄");
    assert_eq!(sdl.version, "1.2.0");
    assert_eq!(sdl.original_error.as_deref(), Some("device lost"));

    record_driver_error(&mut drivers, "nolo-cv1-hid", "no access", "0.1.0");
    assert_eq!(drivers.len(), 2);
    let nolo = drivers.get("nolo-cv1-hid").unwrap();
    assert_eq!(nolo.driver_id, "nolo-cv1-hid");
    assert_eq!(nolo.display_name, "Input driver");
    assert_eq!(nolo.version, "0.1.0");
    assert_eq!(nolo.original_error.as_deref(), Some("no access"));
}

#[test]
fn a_selected_source_is_live_only_while_listed_active_and_on_its_device() {
    let mut sources = KeyedList::new();
    sources.insert("nolo:1".to_string(), listed("nolo:1", "nolo", "hmd"));
    let selection = PoseSourceSelection {
        driver_id: "nolo".into(),
        device_id: "hmd".into(),
        source_id: "nolo:1".into(),
    };
    assert!(selection_active(&selection, &sources));
    let other_device = PoseSourceSelection {
        driver_id: "nolo".into(),
        device_id: "other".into(),
        source_id: "nolo:1".into(),
    };
    assert!(!selection_active(&other_device, &sources));
    let mut idle = listed("nolo:1", "nolo", "hmd");
    idle.active = false;
    sources.insert("nolo:1".to_string(), idle);
    assert!(!selection_active(&selection, &sources));
    replace_driver_sources(&mut sources, "nolo", &vec![]);
    assert!(!selection_active(&selection, &sources));
}
