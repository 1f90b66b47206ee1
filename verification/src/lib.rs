//! Verified decision logic of the robot-arm backend nodes.
pub mod base64_text;
pub mod binding_status;
pub mod board_image;
pub mod calibration;
pub mod clock;
pub mod camera_config;
pub mod camera_drivers;
pub mod camera_selection;
pub mod camera_sources;
pub mod camera_stream;
pub mod config_version;
pub mod controller_input;
pub mod depth_image;
pub mod gateway;
pub mod image_planes;
pub mod input_sources;
pub mod keyed_list;
pub mod messages;
pub mod motion;
pub mod motion_request;
pub mod overlay;
pub mod perception;
pub mod png_codec;
pub mod readiness;
pub mod realsense;
pub mod request_history;
pub mod ros_cameras;
pub mod ros_time;
pub mod scene_task;
pub mod selection_plan;
pub mod segmentation;
pub mod simulated_camera;
pub mod snapshot_store;
pub mod text;
