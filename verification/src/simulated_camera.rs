//! The simulated RGB-D cameras of the capture node: the source and profiles each one
//! declares, which open requests it accepts, and how its depth image is encoded.
use vstd::prelude::*;
use crate::camera_selection::{CameraSource, ParameterValue, StreamKind, StreamProfile};
use crate::camera_sources::{profile_view, ProfileView};
use crate::text::{decimal_text, owned, push_decimal, str_eq};

verus! {

/// The key of a simulated profile: `<stream>:<width>x<height>:<format>:10`.
pub open spec fn simulated_key(stream: Seq<char>, width: u32, height: u32, format: Seq<char>) -> Seq<char> {
    stream + ":"@ + decimal_text(width as nat) + "x"@ + decimal_text(height as nat) + ":"@ + format + ":10"@
}

fn key_text(stream: &str, width: u32, height: u32, format: &str) -> (res: String)
    ensures
        res@ == simulated_key(stream@, width, height, format@),
{
    let mut k = owned(stream);
    k.append(":");
    push_decimal(&mut k, width as u64);
    k.append("x");
    push_decimal(&mut k, height as u64);
    k.append(":");
    k.append(format);
    k.append(":10");
    k
}

/// The profile a simulated camera declares for a stream: the camera's full resolution
/// at 10 frames per second, default and available.
pub open spec fn simulated_profile(stream: StreamKind, width: u32, height: u32) -> ProfileView {
    let (name, format) = match stream {
        StreamKind::Color => ("color"@, "rgb8"@),
        StreamKind::Depth => ("depth"@, "z16le"@),
    };
    ProfileView {
        key: simulated_key(name, width, height, format),
        stream,
        width,
        height,
        frames_per_second: 10,
        pixel_format: format,
        is_default: true,
        available: true,
        unavailable_reason: None,
    }
}

fn profile_for(stream: StreamKind, width: u32, height: u32) -> (res: StreamProfile)
    ensures
        profile_view(res) == simulated_profile(stream, width, height),
{
    let (name, format) = match stream {
        StreamKind::Color => ("color", "rgb8"),
        StreamKind::Depth => ("depth", "z16le"),
    };
    StreamProfile {
        key: key_text(name, width, height, format),
        stream,
        width,
        height,
        frames_per_second: 10,
        pixel_format: owned(format),
        is_default: true,
        available: true,
        unavailable_reason: None,
    }
}

/// The source a simulated camera declares: always available, a colour and a depth
/// profile at its resolution, no driver parameters.
pub fn simulated_source(source_id: &str, display_name: &str, width: u32, height: u32) -> (res: CameraSource)
    ensures
        res.source_id@ == source_id@,
        res.driver_id@ == "simulation"@,
        res.display_name@ == display_name@,
        res.device_model matches Some(m) && m@ == "确定性 RGB-D 测试源"@,
        res.serial_number is None,
        res.firmware_version is None,
        res.connection_type matches Some(c) && c@ == "内置资产"@,
        res.physical_port is None,
        res.sensors@.map_values(|s: String| s@) == seq!["color"@, "depth"@],
        res.profiles@.map_values(|p: StreamProfile| profile_view(p)) == seq![
            simulated_profile(StreamKind::Color, width, height),
            simulated_profile(StreamKind::Depth, width, height),
        ],
        res.driver_extensions@.len() == 0,
        res.available,
{
    let sensors = vec![owned("color"), owned("depth")];
    assert(sensors@.map_values(|s: String| s@) =~= seq!["color"@, "depth"@]);
    let profiles = vec![
        profile_for(StreamKind::Color, width, height),
        profile_for(StreamKind::Depth, width, height),
    ];
    assert(profiles@.map_values(|p: StreamProfile| profile_view(p)) =~= seq![
        simulated_profile(StreamKind::Color, width, height),
        simulated_profile(StreamKind::Depth, width, height),
    ]);
    CameraSource {
        source_id: owned(source_id),
        driver_id: owned("simulation"),
        display_name: owned(display_name),
        device_model: Some(owned("确定性 RGB-D 测试源")),
        serial_number: None,
        firmware_version: None,
        connection_type: Some(owned("内置资产")),
        physical_port: None,
        sensors,
        profiles,
        driver_extensions: Vec::new(),
        available: true,
    }
}

/// Why a simulated camera refuses to open.
pub enum SimulatedOpenError {
    DriverParameters,
    UnknownSource(String),
    UndeclaredProfile,
}

pub open spec fn simulated_open_error_text(error: SimulatedOpenError) -> Seq<char> {
    match error {
        SimulatedOpenError::DriverParameters => "模拟相机没有设备专属驱动参数"@,
        SimulatedOpenError::UnknownSource(id) => "模拟相机 "@ + id@ + " 不存在"@,
        SimulatedOpenError::UndeclaredProfile => "所选 profile 不是模拟相机实际声明的能力"@,
    }
}

impl SimulatedOpenError {
    /// The message reported for the refusal.
    pub fn message(&self) -> (res: String)
        ensures
            res@ == simulated_open_error_text(*self),
    {
        match self {
            SimulatedOpenError::DriverParameters => owned("模拟相机没有设备专属驱动参数"),
            SimulatedOpenError::UnknownSource(id) => {
                let mut m = owned("模拟相机 ");
                m.append(id.as_str());
                m.append(" 不存在");
                m
            },
            SimulatedOpenError::UndeclaredProfile => owned("所选 profile 不是模拟相机实际声明的能力"),
        }
    }
}

/// A simulated camera as configured: its id, name and resolution.
pub struct SimulatedCamera {
    pub source_id: String,
    pub display_name: String,
    pub width: u32,
    pub height: u32,
}

fn same_profile(a: &StreamProfile, b: &StreamProfile) -> (res: bool)
    ensures
        res == (profile_view(*a) == profile_view(*b)),
{
    let reasons_equal = match (&a.unavailable_reason, &b.unavailable_reason) {
        (Some(x), Some(y)) => str_eq(x.as_str(), y.as_str()),
        (None, None) => true,
        _ => false,
    };
    str_eq(a.key.as_str(), b.key.as_str()) && a.stream == b.stream && a.width == b.width && a.height == b.height
        && a.frames_per_second == b.frames_per_second && str_eq(a.pixel_format.as_str(), b.pixel_format.as_str())
        && a.is_default == b.is_default && a.available == b.available && reasons_equal
}

/// Which simulated camera an open request starts: it takes no driver parameters, the
/// camera must be configured, and both profiles must be exactly ones it declares.
pub fn check_simulated_open(
    cameras: &Vec<SimulatedCamera>,
    source_id: &str,
    color: &StreamProfile,
    depth: &StreamProfile,
    driver_parameters: &Vec<ParameterValue>,
) -> (res: Result<usize, SimulatedOpenError>)
    ensures
        driver_parameters@.len() > 0 ==> res matches Err(SimulatedOpenError::DriverParameters),
        driver_parameters@.len() == 0 ==> match res {
            Ok(i) => {
                &&& i < cameras@.len()
                &&& cameras@[i as int].source_id@ == source_id@
                &&& forall|j: int| 0 <= j < i ==> cameras@[j].source_id@ != source_id@
                &&& ({
                    let c = cameras@[i as int];
                    let declared = seq![
                        simulated_profile(StreamKind::Color, c.width, c.height),
                        simulated_profile(StreamKind::Depth, c.width, c.height),
                    ];
                    declared.contains(profile_view(*color)) && declared.contains(profile_view(*depth))
                })
            },
            Err(SimulatedOpenError::UnknownSource(id)) => id@ == source_id@ && forall|j: int|
                0 <= j < cameras@.len() ==> cameras@[j].source_id@ != source_id@,
            Err(SimulatedOpenError::UndeclaredProfile) => exists|i: int|
                0 <= i < cameras@.len() && cameras@[i].source_id@ == source_id@ && (forall|j: int|
                    0 <= j < i ==> cameras@[j].source_id@ != source_id@) && ({
                    let c = cameras@[i];
                    let declared = seq![
                        simulated_profile(StreamKind::Color, c.width, c.height),
                        simulated_profile(StreamKind::Depth, c.width, c.height),
                    ];
                    !(declared.contains(profile_view(*color)) && declared.contains(profile_view(*depth)))
                }),
            Err(SimulatedOpenError::DriverParameters) => false,
        },
{
    if driver_parameters.len() > 0 {
        return Err(SimulatedOpenError::DriverParameters);
    }
    let mut i: usize = 0;
    while i < cameras.len()
        invariant
            driver_parameters@.len() == 0,
            i <= cameras@.len(),
            forall|j: int| 0 <= j < i ==> cameras@[j].source_id@ != source_id@,
        decreases cameras@.len() - i,
    {
        if str_eq(cameras[i].source_id.as_str(), source_id) {
            let c = &cameras[i];
            let declared_color = profile_for(StreamKind::Color, c.width, c.height);
            let declared_depth = profile_for(StreamKind::Depth, c.width, c.height);
            let color_ok = same_profile(color, &declared_color) || same_profile(color, &declared_depth);
            let depth_ok = same_profile(depth, &declared_color) || same_profile(depth, &declared_depth);
            let ghost declared = seq![
                simulated_profile(StreamKind::Color, c.width, c.height),
                simulated_profile(StreamKind::Depth, c.width, c.height),
            ];
            proof {
                assert(declared[0] == profile_view(declared_color));
                assert(declared[1] == profile_view(declared_depth));
                assert(declared.contains(profile_view(*color)) == (profile_view(*color) == declared[0]
                    || profile_view(*color) == declared[1]));
                assert(declared.contains(profile_view(*depth)) == (profile_view(*depth) == declared[0]
                    || profile_view(*depth) == declared[1]));
            }
            if color_ok && depth_ok {
                return Ok(i);
            }
            return Err(SimulatedOpenError::UndeclaredProfile);
        }
        i += 1;
    }
    Err(SimulatedOpenError::UnknownSource(owned(source_id)))
}

/// 16-bit depth values as little-endian bytes, two per value.
pub open spec fn le_bytes_spec(values: Seq<u16>) -> Seq<u8>
    decreases values.len(),
{
    if values.len() == 0 {
        Seq::empty()
    } else {
        le_bytes_spec(values.drop_last()) + seq![(values.last() % 256) as u8, (values.last() / 256) as u8]
    }
}

/// Encodes a depth image as little-endian bytes.
pub fn depth_le_bytes(values: &Vec<u16>) -> (res: Vec<u8>)
    ensures
        res@ == le_bytes_spec(values@),
        res@.len() == 2 * values@.len(),
{
    let mut res: Vec<u8> = Vec::new();
    let mut i: usize = 0;
    assert(values@.take(0) =~= Seq::<u16>::empty());
    while i < values.len()
        invariant
            i <= values@.len(),
            res@ == le_bytes_spec(values@.take(i as int)),
            res@.len() == 2 * i,
        decreases values@.len() - i,
    {
        proof {
            assert(values@.take(i as int + 1).drop_last() =~= values@.take(i as int));
            assert(values@.take(i as int + 1).last() == values@[i as int]);
        }
        let v = values[i];
        let ghost before = res@;
        res.push((v % 256) as u8);
        res.push((v / 256) as u8);
        assert(res@ =~= before + seq![(v % 256) as u8, (v / 256) as u8]);
        i += 1;
    }
    assert(values@.take(values@.len() as int) =~= values@);
    res
}

} // verus!
