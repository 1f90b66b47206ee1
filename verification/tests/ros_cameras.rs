use arm_backend::realsense::DeviceInfo;
use arm_backend::ros_cameras::{camera_source_info, contains_str, discover_cameras};

fn device(fields: &[(&str, &str)]) -> DeviceInfo {
    DeviceInfo {
        fields: fields.iter().map(|(k, v)| ((*k).to_owned(), (*v).to_owned())).collect(),
    }
}

fn topics(names: &[&str]) -> Vec<String> {
    names.iter().map(|n| n.to_string()).collect()
}

fn camera_topics(ns: &str) -> Vec<String> {
    vec![
        format!("{ns}/color/image_raw"),
        format!("{ns}/aligned_depth_to_color/image_raw"),
        format!("{ns}/aligned_depth_to_color/camera_info"),
    ]
}

#[test]
fn sources_need_depth_color_and_camera_info_topics() {
    let mut names = camera_topics("/camera/front");
    names.extend(topics(&[
        "/camera/rear/aligned_depth_to_color/image_raw",
        "/camera/rear/color/image_raw",
        "/rosout",
    ]));
    let sources = discover_cameras(&names, &vec![]);
    assert_eq!(sources.len(), 1);
    assert_eq!(sources[0].source_id, "/camera/front");
    assert_eq!(sources[0].display_name, "camera / front");
    assert_eq!(sources[0].driver_id, "ros2");
    assert_eq!(sources[0].color_stream, "/camera/front/color/image_raw");
    assert!(sources[0].serial_number.is_none());
}

#[test]
fn sources_come_in_name_order_once_each() {
    let mut names = camera_topics("/b");
    names.extend(camera_topics("/a"));
    names.extend(camera_topics("/a"));
    let sources = discover_cameras(&names, &vec![]);
    let ids: Vec<&str> = sources.iter().map(|s| s.source_id.as_str()).collect();
    assert_eq!(ids, vec!["/a", "/b"]);
}

#[test]
fn the_device_whose_serial_the_namespace_holds_describes_it() {
    let mut names = camera_topics("/camera_123");
    names.extend(camera_topics("/camera_456"));
    let devices = vec![
        device(&[("serial_number", "456"), ("device_name", "realsense_d435")]),
        device(&[("serial_number", "123"), ("device_name", "realsense_d405")]),
    ];
    let sources = discover_cameras(&names, &devices);
    assert_eq!(sources.len(), 2);
    assert_eq!(sources[0].serial_number.as_deref(), Some("123"));
    assert_eq!(sources[0].display_name, "RealSense D405 · 123");
    assert_eq!(sources[1].serial_number.as_deref(), Some("456"));
}

#[test]
fn one_camera_and_one_device_belong_together() {
    let names = camera_topics("/camera/camera");
    let devices = vec![device(&[("serial_number", "999"), ("device_name", "d455")])];
    let sources = discover_cameras(&names, &devices);
    assert_eq!(sources[0].serial_number.as_deref(), Some("999"));
    assert_eq!(sources[0].device_model.as_deref(), Some("RealSense D455"));
    let two_devices = vec![device(&[("serial_number", "1")]), device(&[("serial_number", "2")])];
    assert!(discover_cameras(&names, &two_devices)[0].serial_number.is_none());
}

#[test]
fn a_repeated_suffix_is_trimmed_away() {
    let ns = "/cam/aligned_depth_to_color/image_raw";
    let mut names = topics(&[&format!("{ns}/aligned_depth_to_color/image_raw")]);
    names.extend(camera_topics("/cam"));
    let sources = discover_cameras(&names, &vec![]);
    let ids: Vec<&str> = sources.iter().map(|s| s.source_id.as_str()).collect();
    assert_eq!(ids, vec!["/cam", "/cam"]);
}

#[test]
fn substring_search() {
    assert!(contains_str("/camera_123/x", "123"));
    assert!(contains_str("abc", ""));
    assert!(!contains_str("ab", "abc"));
    assert!(!contains_str("a1b2", "12"));
}

#[test]
fn a_namespace_names_its_three_topics() {
    let source = camera_source_info("/camera/camera");
    assert_eq!(source.display_name, "camera / camera");
    assert_eq!(source.depth_stream, "/camera/camera/aligned_depth_to_color/image_raw");
    assert_eq!(source.camera_info_stream, "/camera/camera/aligned_depth_to_color/camera_info");
    assert!(!source.calibrated);
}
