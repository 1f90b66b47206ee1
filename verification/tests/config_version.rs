use arm_backend::config_version::{check_schema_version, origin_confirmation_error, spatial_save_error};

#[test]
fn other_schema_versions_are_refused() {
    assert!(check_schema_version(2, 2, "输入").is_ok());
    assert_eq!(check_schema_version(7, 2, "输入").unwrap_err(), "不支持的输入配置版本 7");
    assert_eq!(check_schema_version(0, 1, "空间").unwrap_err(), "不支持的空间配置版本 0");
}

#[test]
fn origin_confirmation_needs_a_pose_and_a_save() {
    assert_eq!(origin_confirmation_error(false, None).as_deref(), Some("当前没有可用于确认原点的绝对位姿"));
    assert_eq!(origin_confirmation_error(true, Some("disk full")).as_deref(), Some("保存空间配置失败：disk full"));
    assert_eq!(origin_confirmation_error(true, None), None);
    assert_eq!(spatial_save_error("x"), "保存空间配置失败：x");
}
