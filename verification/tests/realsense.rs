use arm_backend::realsense::{
    apply_realsense_device_info, camera_source, parse_realsense_device_info, realsense_model_name, string_field,
    trim, DeviceInfo,
};

fn device(fields: &[(&str, &str)]) -> DeviceInfo {
    DeviceInfo { fields: fields.iter().map(|(k, v)| ((*k).to_owned(), (*v).to_owned())).collect() }
}

#[test]
fn realsense_device_info_populates_generic_camera_metadata() {
    let mut source = camera_source("/camera/camera".into());
    apply_realsense_device_info(
        &mut source,
        &device(&[
            ("device_name", "realsense_d415"),
            ("serial_number", "924322061032"),
            ("firmware_version", "5.12.7.100"),
            ("usb_type_descriptor", "2.1"),
            ("sensors", "depth_module,rgb_camera"),
            ("physical_port", "/sys/devices/example/video0"),
        ]),
    );
    assert_eq!(source.display_name, "RealSense D415 · 924322061032");
    assert_eq!(source.device_model.as_deref(), Some("RealSense D415"));
    assert_eq!(source.connection_type.as_deref(), Some("USB 2.1"));
    assert_eq!(source.sensors, ["color", "depth"]);
}

#[test]
fn parses_compact_device_fields_without_stream_profile_assumptions() {
    let devices = parse_realsense_device_info(
        "Device info:\n\
             Name : RealSense D415\n\
             Serial Number : 924322061032\n\
             Firmware Version : 5.12.7.100\n\
             Physical Port : /sys/devices/example/video0\n\
             Usb Type Descriptor : 2.1\n\n\
         Stream Profiles supported by Stereo Module\n\
             Depth 1280x720 Z16 @ 6 Hz\n",
    );
    assert_eq!(devices.len(), 1);
    assert_eq!(string_field(&devices[0], "device_name").as_deref(), Some("RealSense D415"));
    assert_eq!(string_field(&devices[0], "serial_number").as_deref(), Some("924322061032"));
    assert!(devices[0].get("width").is_none());
    assert!(devices[0].get("fps").is_none());
}

#[test]
fn each_device_info_line_starts_a_device() {
    let devices = parse_realsense_device_info(
        "ignored: before any device\r\nDevice info:\r\n  Name : A\r\n  Name : B\r\n Device info: \nSerial Number:  7 \nWeird line\n",
    );
    assert_eq!(devices.len(), 2);
    assert_eq!(string_field(&devices[0], "device_name").as_deref(), Some("B"));
    assert_eq!(string_field(&devices[1], "serial_number").as_deref(), Some("7"));
    assert!(string_field(&devices[1], "device_name").is_none());
    assert!(parse_realsense_device_info("").is_empty());
    assert!(string_field(&device(&[("serial_number", "   ")]), "serial_number").is_none());
}

#[test]
fn model_names_are_shown_as_realsense_models() {
    assert_eq!(realsense_model_name("RealSense D435I"), "RealSense D435I");
    assert_eq!(realsense_model_name("realsense_d435_i"), "RealSense D435 I");
    assert_eq!(realsense_model_name("l515"), "RealSense L515");
}

#[test]
fn ros_camera_sources_are_named_after_their_namespace() {
    let source = camera_source("//robot/camera".into());
    assert_eq!(source.display_name, "robot / camera");
    assert_eq!(source.color_stream, "//robot/camera/color/image_raw");
    assert_eq!(source.depth_stream, "//robot/camera/aligned_depth_to_color/image_raw");
    assert_eq!(source.camera_info_stream, "//robot/camera/aligned_depth_to_color/camera_info");
    assert_eq!(source.driver_id, "ros2");
    let mut without_serial = camera_source("/cam".into());
    apply_realsense_device_info(&mut without_serial, &device(&[("device_name", "realsense_d405")]));
    assert_eq!(without_serial.display_name, "RealSense D405");
    let mut unnamed = camera_source("/cam".into());
    apply_realsense_device_info(&mut unnamed, &device(&[("serial_number", "1")]));
    assert_eq!(unnamed.display_name, "cam");
    assert_eq!(trim("\u{3000} a b \t"), "a b");
}
