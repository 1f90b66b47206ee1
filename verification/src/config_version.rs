//! Schema checks of the nodes' persisted configurations and the messages of failed saves.
use vstd::prelude::*;
use crate::text::{decimal_text, owned, push_decimal};

verus! {

/// The schema version a node reads, and the message when a file has another one.
pub fn check_schema_version(found: u32, expected: u32, subject: &str) -> (res: Result<(), String>)
    ensures
        found == expected ==> res is Ok,
        found != expected ==> (res matches Err(m) && m@ == "不支持的"@ + subject@ + "配置版本 "@
            + decimal_text(found as nat)),
{
    if found == expected {
        return Ok(());
    }
    let mut m = owned("不支持的");
    m.append(subject);
    m.append("配置版本 ");
    push_decimal(&mut m, found as u64);
    Err(m)
}

/// The error a spatial-configuration request reports when saving failed.
pub fn spatial_save_error(error: &str) -> (res: String)
    ensures
        res@ == "保存空间配置失败："@ + error@,
{
    let mut m = owned("保存空间配置失败：");
    m.append(error);
    m
}

/// The error of confirming the tracking origin: there must be an absolute pose to take
/// it from, and the configuration must then be saved.
pub fn origin_confirmation_error(confirmed: bool, save_error: Option<&str>) -> (res: Option<String>)
    ensures
        !confirmed ==> (res matches Some(m) && m@ == "当前没有可用于确认原点的绝对位姿"@),
        confirmed ==> match save_error {
            Some(e) => res matches Some(m) && m@ == "保存空间配置失败："@ + e@,
            None => res is None,
        },
{
    if !confirmed {
        return Some(owned("当前没有可用于确认原点的绝对位姿"));
    }
    match save_error {
        Some(e) => Some(spatial_save_error(e)),
        None => None,
    }
}

} // verus!
