//! Routing among the camera drivers: which driver owns a source (by the prefix of its
//! id), how discovery results and errors are gathered, and which colour layouts a driver
//! may deliver.
use vstd::prelude::*;
use crate::text::{owned, str_eq};

verus! {

/// The camera drivers.
#[derive(PartialEq, Eq, Structural, Clone, Copy, Debug)]
pub enum DriverKind {
    Simulation,
    RealSense,
}

/// The part of an id before its first `:`, if it has one.
pub open spec fn id_prefix(id: Seq<char>) -> Option<Seq<char>> {
    if exists|i: int| 0 <= i < id.len() && id[i] == ':' {
        let i = choose|i: int| 0 <= i < id.len() && id[i] == ':' && forall|j: int| 0 <= j < i ==> id[j] != ':';
        Some(id.subrange(0, i))
    } else {
        None
    }
}

fn prefix_of(id: &str) -> (res: Option<String>)
    ensures
        match res {
            Some(p) => id_prefix(id@) == Some(p@),
            None => id_prefix(id@) is None,
        },
{
    let n = id.unicode_len();
    let mut i: usize = 0;
    let mut prefix = String::new();
    while i < n
        invariant
            n == id@.len(),
            i <= n,
            forall|j: int| 0 <= j < i ==> id@[j] != ':',
            prefix@ == id@.subrange(0, i as int),
        decreases n - i,
    {
        let c = id.get_char(i);
        if c == ':' {
            proof {
                let w = choose|w: int| 0 <= w < id@.len() && id@[w] == ':' && forall|j: int| 0 <= j < w ==> id@[j] != ':';
                if w < i {
                    assert(id@[w] != ':');
                }
                if w > i {
                    assert(id@[i as int] != ':');
                }
            }
            return Some(prefix);
        }
        crate::text::push_char(&mut prefix, c);
        assert(id@.subrange(0, i as int + 1) =~= id@.subrange(0, i as int).push(c));
        i += 1;
    }
    None
}

/// The driver that owns a source: `simulation:` ids belong to the simulation driver,
/// `realsense:` ids to the RealSense driver when it is built in.
pub open spec fn driver_of(id: Seq<char>, realsense_enabled: bool) -> Option<DriverKind> {
    match id_prefix(id) {
        Some(p) => if p == "simulation"@ {
            Some(DriverKind::Simulation)
        } else if p == "realsense"@ && realsense_enabled {
            Some(DriverKind::RealSense)
        } else {
            None
        },
        None => None,
    }
}

pub open spec fn unknown_source_text(id: Seq<char>) -> Seq<char> {
    "未知相机来源 "@ + id
}

/// The driver that owns a source, or the error for a source no driver owns.
pub fn route_source(source_id: &str, realsense_enabled: bool) -> (res: Result<DriverKind, String>)
    ensures
        match res {
            Ok(d) => driver_of(source_id@, realsense_enabled) == Some(d),
            Err(m) => driver_of(source_id@, realsense_enabled) is None && m@ == unknown_source_text(source_id@),
        },
{
    let owner = match prefix_of(source_id) {
        Some(p) => {
            if str_eq(p.as_str(), "simulation") {
                Some(DriverKind::Simulation)
            } else if str_eq(p.as_str(), "realsense") && realsense_enabled {
                Some(DriverKind::RealSense)
            } else {
                None
            }
        },
        None => None,
    };
    match owner {
        Some(d) => Ok(d),
        None => {
            let mut m = owned("未知相机来源 ");
            m.append(source_id);
            Err(m)
        },
    }
}

/// Gathers one driver's discovery: its sources join the list; its error is reported as
/// `<driver>: <error>`.
pub fn collect_discovery<T>(output: &mut Vec<T>, errors: &mut Vec<String>, result: Result<Vec<T>, String>, driver: &str)
    ensures
        match result {
            Ok(values) => final(output)@ == old(output)@ + values@ && final(errors)@ == old(errors)@,
            Err(e) => final(output)@ == old(output)@ && final(errors)@.len() == old(errors)@.len() + 1
                && final(errors)@.last()@ == driver@ + ": "@ + e@ && final(errors)@.drop_last() == old(
                errors,
            )@,
        },
{
    match result {
        Ok(mut values) => {
            output.append(&mut values);
        },
        Err(e) => {
            let mut m = owned(driver);
            m.append(": ");
            m.append(e.as_str());
            errors.push(m);
            assert(errors@.drop_last() =~= old(errors)@);
        },
    }
}

/// How a driver colour format becomes RGB.
#[derive(PartialEq, Eq, Structural, Clone, Copy, Debug)]
pub enum ColorConversion {
    /// Already RGB.
    Keep,
    FromBgr,
    FromRgba,
    FromBgra,
    FromGray,
}

/// The bytes per pixel and conversion of each supported driver colour format.
pub open spec fn color_format(format: Seq<char>) -> Option<(u32, ColorConversion)> {
    if format == "rgb8"@ {
        Some((3u32, ColorConversion::Keep))
    } else if format == "bgr8"@ {
        Some((3u32, ColorConversion::FromBgr))
    } else if format == "rgba8"@ {
        Some((4u32, ColorConversion::FromRgba))
    } else if format == "bgra8"@ {
        Some((4u32, ColorConversion::FromBgra))
    } else if format == "y8"@ {
        Some((1u32, ColorConversion::FromGray))
    } else {
        None
    }
}

/// Why a driver colour image cannot be normalized.
pub enum ColorLayoutError {
    UnsupportedFormat(String),
    StrideTooSmall,
}

pub open spec fn color_layout_error_text(error: ColorLayoutError) -> Seq<char> {
    match error {
        ColorLayoutError::UnsupportedFormat(f) => "不支持的驱动彩色格式 "@ + f@,
        ColorLayoutError::StrideTooSmall => "驱动彩色图 stride 小于像素行宽"@,
    }
}

impl ColorLayoutError {
    /// The message reported for the refusal.
    pub fn message(&self) -> (res: String)
        ensures
            res@ == color_layout_error_text(*self),
    {
        match self {
            ColorLayoutError::UnsupportedFormat(f) => {
                let mut m = owned("不支持的驱动彩色格式 ");
                m.append(f.as_str());
                m
            },
            ColorLayoutError::StrideTooSmall => owned("驱动彩色图 stride 小于像素行宽"),
        }
    }
}

/// The conversion a driver colour image needs: its format must be supported and its
/// rows at least as wide as its pixels.
pub fn color_layout(pixel_format: &str, width: u32, stride_bytes: u32) -> (res: Result<ColorConversion, ColorLayoutError>)
    ensures
        match color_format(pixel_format@) {
            None => res matches Err(ColorLayoutError::UnsupportedFormat(f)) && f@ == pixel_format@,
            Some((channels, conversion)) => if (stride_bytes as int) < width * channels {
                res matches Err(ColorLayoutError::StrideTooSmall)
            } else {
                res == Ok::<ColorConversion, ColorLayoutError>(conversion)
            },
        },
{
    let (channels, conversion): (u32, ColorConversion) = if str_eq(pixel_format, "rgb8") {
        (3, ColorConversion::Keep)
    } else if str_eq(pixel_format, "bgr8") {
        (3, ColorConversion::FromBgr)
    } else if str_eq(pixel_format, "rgba8") {
        (4, ColorConversion::FromRgba)
    } else if str_eq(pixel_format, "bgra8") {
        (4, ColorConversion::FromBgra)
    } else if str_eq(pixel_format, "y8") {
        (1, ColorConversion::FromGray)
    } else {
        return Err(ColorLayoutError::UnsupportedFormat(owned(pixel_format)));
    };
    assert(channels <= 4);
    assert((width as u64) * (channels as u64) <= 0xffff_ffff * 4) by (nonlinear_arith)
        requires
            channels <= 4,
            width <= 0xffff_ffff,
    ;
    let packed: u64 = width as u64 * channels as u64;
    if (stride_bytes as u64) < packed {
        return Err(ColorLayoutError::StrideTooSmall);
    }
    Ok(conversion)
}

} // verus!
