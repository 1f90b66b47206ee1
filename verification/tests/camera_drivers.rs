use arm_backend::camera_drivers::{collect_discovery, color_layout, route_source, ColorConversion, ColorLayoutError, DriverKind};
use arm_backend::camera_selection::{ParameterValue, StreamKind};
use arm_backend::simulated_camera::{check_simulated_open, depth_le_bytes, simulated_source, SimulatedCamera, SimulatedOpenError};

#[test]
fn sources_route_to_their_driver_by_prefix() {
    assert!(route_source("simulation:pick-place-scene", false) == Ok(DriverKind::Simulation));
    assert!(route_source("realsense:123", true) == Ok(DriverKind::RealSense));
    assert_eq!(route_source("realsense:123", false).unwrap_err(), "未知相机来源 realsense:123");
    assert_eq!(route_source("simulation", true).unwrap_err(), "未知相机来源 simulation");
}

#[test]
fn discovery_collects_sources_and_errors() {
    let mut sources = vec![1];
    let mut errors = vec![];
    collect_discovery(&mut sources, &mut errors, Ok(vec![2, 3]), "simulation");
    collect_discovery(&mut sources, &mut errors, Err("no usb".into()), "librealsense2");
    assert_eq!(sources, [1, 2, 3]);
    assert_eq!(errors, ["librealsense2: no usb"]);
}

#[test]
fn colour_layouts_need_a_known_format_and_wide_enough_rows() {
    assert!(matches!(color_layout("rgb8", 4, 12), Ok(ColorConversion::Keep)));
    assert!(matches!(color_layout("bgra8", 4, 20), Ok(ColorConversion::FromBgra)));
    assert!(matches!(color_layout("y8", 4, 4), Ok(ColorConversion::FromGray)));
    assert!(matches!(color_layout("bgr8", 4, 11), Err(ColorLayoutError::StrideTooSmall)));
    assert_eq!(color_layout("bgr8", 4, 11).unwrap_err().message(), "驱动彩色图 stride 小于像素行宽");
    assert_eq!(color_layout("yuyv", 4, 100).unwrap_err().message(), "不支持的驱动彩色格式 yuyv");
}

#[test]
fn simulated_cameras_declare_ten_fps_profiles_at_their_resolution() {
    let source = simulated_source("simulation:depth-grid", "深度网格", 640, 480);
    assert_eq!(source.driver_id, "simulation");
    assert!(source.available);
    assert_eq!(source.profiles[0].key, "color:640x480:rgb8:10");
    assert_eq!(source.profiles[1].key, "depth:640x480:z16le:10");
    assert!(source.profiles[1].stream == StreamKind::Depth);
    assert_eq!(source.sensors, ["color", "depth"]);
    assert_eq!(source.connection_type.as_deref(), Some("内置资产"));
}

#[test]
fn simulated_cameras_open_only_with_declared_profiles() {
    let cameras = vec![SimulatedCamera {
        source_id: "simulation:a".into(),
        display_name: "A".into(),
        width: 320,
        height: 240,
    }];
    let declared = simulated_source("simulation:a", "A", 320, 240);
    let (color, depth) = (&declared.profiles[0], &declared.profiles[1]);
    assert_eq!(check_simulated_open(&cameras, "simulation:a", color, depth, &vec![]).ok(), Some(0));
    let parameter = ParameterValue { namespace: "x".into(), key: "y".into(), value_bits: 0 };
    match check_simulated_open(&cameras, "simulation:a", color, depth, &vec![parameter]) {
        Err(e @ SimulatedOpenError::DriverParameters) => assert_eq!(e.message(), "模拟相机没有设备专属驱动参数"),
        _ => panic!(),
    }
    match check_simulated_open(&cameras, "simulation:b", color, depth, &vec![]) {
        Err(e @ SimulatedOpenError::UnknownSource(_)) => assert_eq!(e.message(), "模拟相机 simulation:b 不存在"),
        _ => panic!(),
    }
    let other = simulated_source("simulation:a", "A", 640, 480);
    match check_simulated_open(&cameras, "simulation:a", &other.profiles[0], depth, &vec![]) {
        Err(e @ SimulatedOpenError::UndeclaredProfile) => {
            assert_eq!(e.message(), "所选 profile 不是模拟相机实际声明的能力")
        }
        _ => panic!(),
    }
}

#[test]
fn depth_is_encoded_little_endian() {
    assert_eq!(depth_le_bytes(&vec![0x0102, 630, 0]), [0x02, 0x01, 0x76, 0x02, 0, 0]);
}
