//! The list of camera sources shown to the user: discovered sources merged with the
//! saved ones, so that a saved camera and its saved profiles stay visible (marked
//! unavailable) while the driver does not report them.
use vstd::prelude::*;
use crate::camera_selection::{
    first_where, lemma_first_unique, CameraSource, DriverExtension, DriverParameter, SavedProfiles, StreamKind, StreamProfile,
};
use crate::keyed_list::KeyedList;
use crate::text::{owned, seq_lt, str_eq, str_lt};

verus! {

// ---------------------------------------------------------------------------------------
// Views
// ---------------------------------------------------------------------------------------

pub struct ProfileView {
    pub key: Seq<char>,
    pub stream: StreamKind,
    pub width: u32,
    pub height: u32,
    pub frames_per_second: u32,
    pub pixel_format: Seq<char>,
    pub is_default: bool,
    pub available: bool,
    pub unavailable_reason: Option<Seq<char>>,
}

pub struct ParameterView {
    pub key: Seq<char>,
    pub display_name: Seq<char>,
    pub read_only: bool,
    pub minimum_bits: u64,
    pub maximum_bits: u64,
}

pub struct ExtensionView {
    pub namespace: Seq<char>,
    pub parameters: Seq<ParameterView>,
}

pub struct SourceView {
    pub source_id: Seq<char>,
    pub driver_id: Seq<char>,
    pub display_name: Seq<char>,
    pub device_model: Option<Seq<char>>,
    pub serial_number: Option<Seq<char>>,
    pub firmware_version: Option<Seq<char>>,
    pub connection_type: Option<Seq<char>>,
    pub physical_port: Option<Seq<char>>,
    pub sensors: Seq<Seq<char>>,
    pub profiles: Seq<ProfileView>,
    pub driver_extensions: Seq<ExtensionView>,
    pub available: bool,
}

pub struct SavedView {
    pub source_id: Seq<char>,
    pub source_snapshot: Option<SourceView>,
}

pub open spec fn opt_view(value: Option<String>) -> Option<Seq<char>> {
    match value {
        Some(s) => Some(s@),
        None => None,
    }
}

pub open spec fn profile_view(p: StreamProfile) -> ProfileView {
    ProfileView {
        key: p.key@,
        stream: p.stream,
        width: p.width,
        height: p.height,
        frames_per_second: p.frames_per_second,
        pixel_format: p.pixel_format@,
        is_default: p.is_default,
        available: p.available,
        unavailable_reason: opt_view(p.unavailable_reason),
    }
}

pub open spec fn parameter_view(p: DriverParameter) -> ParameterView {
    ParameterView {
        key: p.key@,
        display_name: p.display_name@,
        read_only: p.read_only,
        minimum_bits: p.minimum_bits,
        maximum_bits: p.maximum_bits,
    }
}

pub open spec fn extension_view(e: DriverExtension) -> ExtensionView {
    ExtensionView {
        namespace: e.namespace@,
        parameters: e.parameters@.map_values(|p: DriverParameter| parameter_view(p)),
    }
}

pub open spec fn profiles_view(ps: Seq<StreamProfile>) -> Seq<ProfileView> {
    ps.map_values(|p: StreamProfile| profile_view(p))
}

pub open spec fn source_view(s: CameraSource) -> SourceView {
    SourceView {
        source_id: s.source_id@,
        driver_id: s.driver_id@,
        display_name: s.display_name@,
        device_model: opt_view(s.device_model),
        serial_number: opt_view(s.serial_number),
        firmware_version: opt_view(s.firmware_version),
        connection_type: opt_view(s.connection_type),
        physical_port: opt_view(s.physical_port),
        sensors: s.sensors@.map_values(|x: String| x@),
        profiles: profiles_view(s.profiles@),
        driver_extensions: s.driver_extensions@.map_values(|e: DriverExtension| extension_view(e)),
        available: s.available,
    }
}

pub open spec fn sources_view(s: Seq<CameraSource>) -> Seq<SourceView> {
    s.map_values(|x: CameraSource| source_view(x))
}

/// A saved choice under its key.
pub open spec fn saved_entry_view(key: Seq<char>, s: SavedProfiles) -> SavedView {
    SavedView {
        source_id: key,
        source_snapshot: match s.source_snapshot {
            Some(x) => Some(source_view(x)),
            None => None,
        },
    }
}

// ---------------------------------------------------------------------------------------
// Stable sorting
// ---------------------------------------------------------------------------------------

/// Inserts `x` after every element whose key does not sort after `x`'s key.
pub open spec fn insert_by<T>(s: Seq<T>, x: T, key: spec_fn(T) -> Seq<char>) -> Seq<T>
    decreases s.len(),
{
    if s.len() == 0 {
        seq![x]
    } else if !seq_lt(key(x), key(s.last())) {
        s.push(x)
    } else {
        insert_by(s.drop_last(), x, key).push(s.last())
    }
}

/// The stable sort of `s` by key: equal keys keep their order.
pub open spec fn sort_by<T>(s: Seq<T>, key: spec_fn(T) -> Seq<char>) -> Seq<T>
    decreases s.len(),
{
    if s.len() == 0 {
        Seq::empty()
    } else {
        insert_by(sort_by(s.drop_last(), key), s.last(), key)
    }
}

proof fn lemma_insert_by_at<T>(s: Seq<T>, x: T, key: spec_fn(T) -> Seq<char>, pos: int)
    requires
        0 <= pos <= s.len(),
        forall|k: int| pos <= k < s.len() ==> seq_lt(key(x), key(#[trigger] s[k])),
        pos == 0 || !seq_lt(key(x), key(s[pos - 1])),
    ensures
        insert_by(s, x, key) == s.insert(pos, x),
    decreases s.len(),
{
    if s.len() == 0 {
        assert(s.insert(pos, x) =~= seq![x]);
    } else if !seq_lt(key(x), key(s.last())) {
        assert(pos == s.len());
        assert(s.insert(pos, x) =~= s.push(x));
    } else {
        let t = s.drop_last();
        lemma_insert_by_at(t, x, key, pos);
        assert(s.insert(pos, x) =~= t.insert(pos, x).push(s.last()));
    }
}

/// Profiles are listed by key.
pub open spec fn profile_order() -> spec_fn(ProfileView) -> Seq<char> {
    |p: ProfileView| p.key
}

/// Sources are listed by display name.
pub open spec fn source_order() -> spec_fn(SourceView) -> Seq<char> {
    |s: SourceView| s.display_name
}

// ---------------------------------------------------------------------------------------
// Copies
// ---------------------------------------------------------------------------------------

fn copy_opt(value: &Option<String>) -> (res: Option<String>)
    ensures
        opt_view(res) == opt_view(*value),
{
    match value {
        Some(s) => Some(s.clone()),
        None => None,
    }
}

fn copy_strings(values: &Vec<String>) -> (res: Vec<String>)
    ensures
        res@.map_values(|x: String| x@) == values@.map_values(|x: String| x@),
{
    let mut res: Vec<String> = Vec::new();
    let mut i: usize = 0;
    while i < values.len()
        invariant
            i <= values@.len(),
            res@.map_values(|x: String| x@) == values@.map_values(|x: String| x@).take(i as int),
        decreases values@.len() - i,
    {
        let ghost before = res@.map_values(|x: String| x@);
        res.push(values[i].clone());
        assert(res@.map_values(|x: String| x@) =~= before.push(values@[i as int]@));
        assert(values@.map_values(|x: String| x@).take(i as int + 1) =~= values@.map_values(|x: String| x@).take(i as int).push(values@[i as int]@));
        i += 1;
    }
    assert(values@.map_values(|x: String| x@).take(values@.len() as int) =~= values@.map_values(|x: String| x@));
    res
}

fn copy_profile(p: &StreamProfile) -> (res: StreamProfile)
    ensures
        profile_view(res) == profile_view(*p),
{
    StreamProfile {
        key: p.key.clone(),
        stream: p.stream,
        width: p.width,
        height: p.height,
        frames_per_second: p.frames_per_second,
        pixel_format: p.pixel_format.clone(),
        is_default: p.is_default,
        available: p.available,
        unavailable_reason: copy_opt(&p.unavailable_reason),
    }
}

fn copy_profiles(ps: &Vec<StreamProfile>) -> (res: Vec<StreamProfile>)
    ensures
        profiles_view(res@) == profiles_view(ps@),
{
    let mut res: Vec<StreamProfile> = Vec::new();
    let mut i: usize = 0;
    while i < ps.len()
        invariant
            i <= ps@.len(),
            profiles_view(res@) == profiles_view(ps@).take(i as int),
        decreases ps@.len() - i,
    {
        let ghost before = profiles_view(res@);
        res.push(copy_profile(&ps[i]));
        assert(profiles_view(res@) =~= before.push(profile_view(ps@[i as int])));
        assert(profiles_view(ps@).take(i as int + 1) =~= profiles_view(ps@).take(i as int).push(profile_view(ps@[i as int])));
        i += 1;
    }
    assert(profiles_view(ps@).take(ps@.len() as int) =~= profiles_view(ps@));
    res
}

fn copy_extension(e: &DriverExtension) -> (res: DriverExtension)
    ensures
        extension_view(res) == extension_view(*e),
{
    let mut parameters: Vec<DriverParameter> = Vec::new();
    let mut i: usize = 0;
    while i < e.parameters.len()
        invariant
            i <= e.parameters@.len(),
            parameters@.map_values(|p: DriverParameter| parameter_view(p)) == e.parameters@.map_values(
                |p: DriverParameter| parameter_view(p),
            ).take(i as int),
        decreases e.parameters@.len() - i,
    {
        let p = &e.parameters[i];
        let ghost before = parameters@.map_values(|p: DriverParameter| parameter_view(p));
        parameters.push(
            DriverParameter {
                key: p.key.clone(),
                display_name: p.display_name.clone(),
                read_only: p.read_only,
                minimum_bits: p.minimum_bits,
                maximum_bits: p.maximum_bits,
            },
        );
        assert(parameters@.map_values(|p: DriverParameter| parameter_view(p)) =~= before.push(parameter_view(e.parameters@[i as int])));
        assert(e.parameters@.map_values(|p: DriverParameter| parameter_view(p)).take(i as int + 1) =~= e.parameters@.map_values(
            |p: DriverParameter| parameter_view(p),
        ).take(i as int).push(parameter_view(e.parameters@[i as int])));
        i += 1;
    }
    assert(e.parameters@.map_values(|p: DriverParameter| parameter_view(p)).take(e.parameters@.len() as int) =~= e.parameters@.map_values(
        |p: DriverParameter| parameter_view(p),
    ));
    DriverExtension { namespace: e.namespace.clone(), parameters }
}

/// A copy of a source.
pub fn copy_source(s: &CameraSource) -> (res: CameraSource)
    ensures
        source_view(res) == source_view(*s),
{
    let mut extensions: Vec<DriverExtension> = Vec::new();
    let mut i: usize = 0;
    while i < s.driver_extensions.len()
        invariant
            i <= s.driver_extensions@.len(),
            extensions@.map_values(|e: DriverExtension| extension_view(e)) == s.driver_extensions@.map_values(
                |e: DriverExtension| extension_view(e),
            ).take(i as int),
        decreases s.driver_extensions@.len() - i,
    {
        let ghost before = extensions@.map_values(|e: DriverExtension| extension_view(e));
        extensions.push(copy_extension(&s.driver_extensions[i]));
        assert(extensions@.map_values(|e: DriverExtension| extension_view(e)) =~= before.push(extension_view(s.driver_extensions@[i as int])));
        assert(s.driver_extensions@.map_values(|e: DriverExtension| extension_view(e)).take(i as int + 1) =~= s.driver_extensions@.map_values(
            |e: DriverExtension| extension_view(e),
        ).take(i as int).push(extension_view(s.driver_extensions@[i as int])));
        i += 1;
    }
    assert(s.driver_extensions@.map_values(|e: DriverExtension| extension_view(e)).take(s.driver_extensions@.len() as int) =~= s.driver_extensions@.map_values(
        |e: DriverExtension| extension_view(e),
    ));
    CameraSource {
        source_id: s.source_id.clone(),
        driver_id: s.driver_id.clone(),
        display_name: s.display_name.clone(),
        device_model: copy_opt(&s.device_model),
        serial_number: copy_opt(&s.serial_number),
        firmware_version: copy_opt(&s.firmware_version),
        connection_type: copy_opt(&s.connection_type),
        physical_port: copy_opt(&s.physical_port),
        sensors: copy_strings(&s.sensors),
        profiles: copy_profiles(&s.profiles),
        driver_extensions: extensions,
        available: s.available,
    }
}

// ---------------------------------------------------------------------------------------
// Sorting
// ---------------------------------------------------------------------------------------

/// Sorts profiles by key, keeping the order of equal keys.
pub fn sort_profiles(ps: Vec<StreamProfile>) -> (res: Vec<StreamProfile>)
    ensures
        profiles_view(res@) == sort_by(profiles_view(ps@), profile_order()),
{
    let ghost key = profile_order();
    let mut sorted: Vec<StreamProfile> = Vec::new();
    let mut rest = ps;
    let ghost input = profiles_view(rest@);
    let ghost mut consumed: int = 0;
    assert(profiles_view(sorted@) =~= sort_by(input.take(0), key));
    let mut i: usize = 0;
    let n = rest.len();
    let mut reversed: Vec<StreamProfile> = Vec::new();
    while rest.len() > 0
        invariant
            reversed@.len() + rest@.len() == n,
            forall|k: int| 0 <= k < rest@.len() ==> profile_view(#[trigger] rest@[k]) == input[k],
            forall|k: int| 0 <= k < reversed@.len() ==> profile_view(#[trigger] reversed@[k]) == input[n - 1 - k],
            input.len() == n,
        decreases rest@.len(),
    {
        let x = rest.pop().unwrap();
        reversed.push(x);
    }
    while reversed.len() > 0
        invariant
            input.len() == n,
            reversed@.len() <= n,
            forall|k: int| 0 <= k < reversed@.len() ==> profile_view(#[trigger] reversed@[k]) == input[n - 1 - k],
            key == profile_order(),
            profiles_view(sorted@) == sort_by(input.take(n - reversed@.len()), key),
        decreases reversed@.len(),
    {
        let ghost done = n - reversed@.len();
        let x = reversed.pop().unwrap();
        assert(profile_view(x) == input[done]);
        let mut pos = sorted.len();
        while pos > 0 && str_lt(x.key.as_str(), sorted[pos - 1].key.as_str())
            invariant
                pos <= sorted@.len(),
                forall|k: int| pos <= k < sorted@.len() ==> seq_lt(x.key@, #[trigger] sorted@[k].key@),
            decreases pos,
        {
            pos -= 1;
        }
        proof {
            let sv = profiles_view(sorted@);
            assert forall|k: int| pos <= k < sv.len() implies seq_lt(key(profile_view(x)), key(#[trigger] sv[k])) by {
                assert(sv[k] == profile_view(sorted@[k]));
            }
            if pos > 0 {
                assert(!seq_lt(x.key@, sorted@[pos - 1].key@));
                assert(sv[pos - 1] == profile_view(sorted@[pos - 1]));
            }
            lemma_insert_by_at(sv, profile_view(x), key, pos as int);
            assert(input.take(done + 1).drop_last() =~= input.take(done));
            assert(input.take(done + 1).last() == input[done]);
        }
        let ghost sv_before = profiles_view(sorted@);
        sorted.insert(pos, x);
        assert(profiles_view(sorted@) =~= sv_before.insert(pos as int, profile_view(x)));
    }
    assert(input.take(n as int) =~= input);
    sorted
}

/// Sorts sources by display name, keeping the order of equal names.
pub fn sort_sources(ss: Vec<CameraSource>) -> (res: Vec<CameraSource>)
    ensures
        sources_view(res@) == sort_by(sources_view(ss@), source_order()),
{
    let ghost key = source_order();
    let mut sorted: Vec<CameraSource> = Vec::new();
    let mut rest = ss;
    let ghost input = sources_view(rest@);
    assert(sources_view(sorted@) =~= sort_by(input.take(0), key));
    let n = rest.len();
    let mut reversed: Vec<CameraSource> = Vec::new();
    while rest.len() > 0
        invariant
            reversed@.len() + rest@.len() == n,
            forall|k: int| 0 <= k < rest@.len() ==> source_view(#[trigger] rest@[k]) == input[k],
            forall|k: int| 0 <= k < reversed@.len() ==> source_view(#[trigger] reversed@[k]) == input[n - 1 - k],
            input.len() == n,
        decreases rest@.len(),
    {
        let x = rest.pop().unwrap();
        reversed.push(x);
    }
    while reversed.len() > 0
        invariant
            input.len() == n,
            reversed@.len() <= n,
            forall|k: int| 0 <= k < reversed@.len() ==> source_view(#[trigger] reversed@[k]) == input[n - 1 - k],
            key == source_order(),
            sources_view(sorted@) == sort_by(input.take(n - reversed@.len()), key),
        decreases reversed@.len(),
    {
        let ghost done = n - reversed@.len();
        let x = reversed.pop().unwrap();
        let mut pos = sorted.len();
        while pos > 0 && str_lt(x.display_name.as_str(), sorted[pos - 1].display_name.as_str())
            invariant
                pos <= sorted@.len(),
                forall|k: int| pos <= k < sorted@.len() ==> seq_lt(x.display_name@, #[trigger] sorted@[k].display_name@),
            decreases pos,
        {
            pos -= 1;
        }
        proof {
            let sv = sources_view(sorted@);
            assert forall|k: int| pos <= k < sv.len() implies seq_lt(key(source_view(x)), key(#[trigger] sv[k])) by {
                assert(sv[k] == source_view(sorted@[k]));
            }
            if pos > 0 {
                assert(sv[pos - 1] == source_view(sorted@[pos - 1]));
            }
            lemma_insert_by_at(sv, source_view(x), key, pos as int);
            assert(input.take(done + 1).drop_last() =~= input.take(done));
        }
        let ghost sv_before = sources_view(sorted@);
        sorted.insert(pos, x);
        assert(sources_view(sorted@) =~= sv_before.insert(pos as int, source_view(x)));
    }
    assert(input.take(n as int) =~= input);
    sorted
}


// ---------------------------------------------------------------------------------------
// Merging saved sources
// ---------------------------------------------------------------------------------------

/// Why a saved profile the driver did not report this time is unavailable.
pub open spec fn not_reported_reason() -> Seq<char> {
    "驱动本次未报告该配置"@
}

/// Why the profiles of a saved source that is not connected are unavailable.
pub open spec fn disconnected_reason() -> Seq<char> {
    "设备当前未连接"@
}

pub open spec fn marked_unavailable(p: ProfileView, reason: Seq<char>) -> ProfileView {
    ProfileView {
        key: p.key,
        stream: p.stream,
        width: p.width,
        height: p.height,
        frames_per_second: p.frames_per_second,
        pixel_format: p.pixel_format,
        is_default: p.is_default,
        available: false,
        unavailable_reason: Some(reason),
    }
}

pub open spec fn has_key(ps: Seq<ProfileView>, key: Seq<char>) -> bool {
    exists|k: int| 0 <= k < ps.len() && #[trigger] ps[k].key == key
}

/// `current` with each saved profile whose key it lacks appended, marked as not reported.
pub open spec fn add_missing(current: Seq<ProfileView>, saved: Seq<ProfileView>) -> Seq<ProfileView>
    decreases saved.len(),
{
    if saved.len() == 0 {
        current
    } else {
        let acc = add_missing(current, saved.drop_last());
        if has_key(acc, saved.last().key) {
            acc
        } else {
            acc.push(marked_unavailable(saved.last(), not_reported_reason()))
        }
    }
}

pub open spec fn with_profiles(s: SourceView, profiles: Seq<ProfileView>) -> SourceView {
    SourceView {
        source_id: s.source_id,
        driver_id: s.driver_id,
        display_name: s.display_name,
        device_model: s.device_model,
        serial_number: s.serial_number,
        firmware_version: s.firmware_version,
        connection_type: s.connection_type,
        physical_port: s.physical_port,
        sensors: s.sensors,
        profiles,
        driver_extensions: s.driver_extensions,
        available: s.available,
    }
}

/// A saved source that is not connected: unavailable, and so is each of its profiles.
pub open spec fn disconnected(s: SourceView) -> SourceView {
    SourceView {
        source_id: s.source_id,
        driver_id: s.driver_id,
        display_name: s.display_name,
        device_model: s.device_model,
        serial_number: s.serial_number,
        firmware_version: s.firmware_version,
        connection_type: s.connection_type,
        physical_port: s.physical_port,
        sensors: s.sensors,
        profiles: s.profiles.map_values(|p: ProfileView| marked_unavailable(p, disconnected_reason())),
        driver_extensions: s.driver_extensions,
        available: false,
    }
}

pub open spec fn source_is(ss: Seq<SourceView>, id: Seq<char>) -> spec_fn(int) -> bool {
    |i: int| ss[i].source_id == id
}

/// The first source with the id.
pub open spec fn source_index(ss: Seq<SourceView>, id: Seq<char>) -> Option<int> {
    if exists|i: int| first_where(ss.len() as int, source_is(ss, id), i) {
        Some(choose|i: int| first_where(ss.len() as int, source_is(ss, id), i))
    } else {
        None
    }
}

/// One saved choice merged into the list: a listed source gains the saved profiles it
/// lacks and has its profiles sorted by key; an unlisted one is appended disconnected.
pub open spec fn merge_one(ss: Seq<SourceView>, saved: SavedView) -> Seq<SourceView> {
    match saved.source_snapshot {
        None => ss,
        Some(snapshot) => match source_index(ss, saved.source_id) {
            Some(i) => ss.update(
                i,
                with_profiles(ss[i], sort_by(add_missing(ss[i].profiles, snapshot.profiles), profile_order())),
            ),
            None => ss.push(disconnected(snapshot)),
        },
    }
}

pub open spec fn merge_all(ss: Seq<SourceView>, saved: Seq<SavedView>) -> Seq<SourceView>
    decreases saved.len(),
{
    if saved.len() == 0 {
        ss
    } else {
        merge_one(merge_all(ss, saved.drop_last()), saved.last())
    }
}

/// The saved choices in key order.
pub open spec fn saved_list_view(saved: KeyedList<SavedProfiles>) -> Seq<SavedView> {
    Seq::new(
        saved.key_order().len(),
        |i: int| saved_entry_view(saved.key_order()[i], saved.value_order()[i]),
    )
}

/// The sources shown: every saved choice merged in order, then all sorted by name.
pub open spec fn merged_sources(ss: Seq<SourceView>, saved: Seq<SavedView>) -> Seq<SourceView> {
    sort_by(merge_all(ss, saved), source_order())
}

fn has_profile_key(ps: &Vec<StreamProfile>, key: &str) -> (res: bool)
    ensures
        res == has_key(profiles_view(ps@), key@),
{
    let mut i: usize = 0;
    while i < ps.len()
        invariant
            i <= ps@.len(),
            forall|k: int| 0 <= k < i ==> ps@[k].key@ != key@,
        decreases ps@.len() - i,
    {
        if str_eq(ps[i].key.as_str(), key) {
            assert(profiles_view(ps@)[i as int].key == key@);
            return true;
        }
        i += 1;
    }
    proof {
        let pv = profiles_view(ps@);
        assert forall|k: int| 0 <= k < pv.len() implies #[trigger] pv[k].key != key@ by {
            assert(pv[k] == profile_view(ps@[k]));
        }
    }
    false
}

fn add_missing_profiles(current: &mut Vec<StreamProfile>, saved: &Vec<StreamProfile>)
    ensures
        profiles_view(final(current)@) == add_missing(profiles_view(old(current)@), profiles_view(saved@)),
{
    let ghost start = profiles_view(current@);
    let ghost sv = profiles_view(saved@);
    let mut i: usize = 0;
    assert(sv.take(0) =~= Seq::<ProfileView>::empty());
    while i < saved.len()
        invariant
            i <= saved@.len(),
            sv == profiles_view(saved@),
            profiles_view(current@) == add_missing(start, sv.take(i as int)),
        decreases saved@.len() - i,
    {
        proof {
            assert(sv.take(i as int + 1).drop_last() =~= sv.take(i as int));
            assert(sv.take(i as int + 1).last() == profile_view(saved@[i as int]));
        }
        if !has_profile_key(current, saved[i].key.as_str()) {
            let mut p = copy_profile(&saved[i]);
            p.available = false;
            p.unavailable_reason = Some(owned("驱动本次未报告该配置"));
            let ghost before = profiles_view(current@);
            current.push(p);
            assert(profiles_view(current@) =~= before.push(profile_view(p)));
        }
        i += 1;
    }
    assert(sv.take(saved@.len() as int) =~= sv);
}

fn disconnected_copy(snapshot: &CameraSource) -> (res: CameraSource)
    ensures
        source_view(res) == disconnected(source_view(*snapshot)),
{
    let mut s = copy_source(snapshot);
    s.available = false;
    let mut profiles: Vec<StreamProfile> = Vec::new();
    let mut i: usize = 0;
    let ghost target = profiles_view(snapshot.profiles@).map_values(
        |p: ProfileView| marked_unavailable(p, disconnected_reason()),
    );
    while i < snapshot.profiles.len()
        invariant
            i <= snapshot.profiles@.len(),
            target == profiles_view(snapshot.profiles@).map_values(
                |p: ProfileView| marked_unavailable(p, disconnected_reason()),
            ),
            profiles_view(profiles@) == target.take(i as int),
        decreases snapshot.profiles@.len() - i,
    {
        let mut p = copy_profile(&snapshot.profiles[i]);
        p.available = false;
        p.unavailable_reason = Some(owned("设备当前未连接"));
        let ghost before = profiles_view(profiles@);
        profiles.push(p);
        assert(profiles_view(profiles@) =~= before.push(profile_view(p)));
        assert(target.take(i as int + 1) =~= target.take(i as int).push(target[i as int]));
        i += 1;
    }
    assert(target.take(snapshot.profiles@.len() as int) =~= target);
    s.profiles = profiles;
    s
}

fn find_source(sources: &Vec<CameraSource>, id: &str) -> (res: Option<usize>)
    ensures
        match res {
            Some(i) => source_index(sources_view(sources@), id@) == Some(i as int),
            None => source_index(sources_view(sources@), id@) is None,
        },
{
    let ghost ss = sources_view(sources@);
    let ghost p = source_is(ss, id@);
    let mut i: usize = 0;
    while i < sources.len()
        invariant
            i <= sources@.len(),
            ss == sources_view(sources@),
            p == source_is(ss, id@),
            forall|j: int| 0 <= j < i ==> !#[trigger] p(j),
        decreases sources@.len() - i,
    {
        assert(ss[i as int] == source_view(sources@[i as int]));
        if str_eq(sources[i].source_id.as_str(), id) {
            proof {
                assert(first_where(ss.len() as int, p, i as int));
                let c = choose|c: int| first_where(ss.len() as int, p, c);
                lemma_first_unique(ss.len() as int, p, i as int, c);
            }
            return Some(i);
        }
        i += 1;
    }
    None
}

/// Merges the saved choices, in order, into the discovered sources: a saved source the
/// driver lists keeps its saved profiles (those not reported now are marked unavailable)
/// with its profiles sorted by key; a saved source the driver does not list is added,
/// unavailable, from its snapshot. The list is then sorted by display name.
pub fn merge_saved_sources(sources: &mut Vec<CameraSource>, saved: &KeyedList<SavedProfiles>)
    requires
        saved.wf(),
    ensures
        sources_view(final(sources)@) == merged_sources(sources_view(old(sources)@), saved_list_view(*saved)),
{
    let ghost start = sources_view(sources@);
    let ghost sv = saved_list_view(*saved);
    let n = saved.len();
    let mut i: usize = 0;
    assert(sv.take(0) =~= Seq::<SavedView>::empty());
    while i < n
        invariant
            saved.wf(),
            n == saved.key_order().len(),
            i <= n,
            sv == saved_list_view(*saved),
            sources_view(sources@) == merge_all(start, sv.take(i as int)),
        decreases n - i,
    {
        let (entry_key, entry) = saved.entry(i);
        proof {
            assert(sv.take(i as int + 1).drop_last() =~= sv.take(i as int));
            assert(sv.take(i as int + 1).last() == saved_entry_view(entry_key@, *entry));
        }
        match &entry.source_snapshot {
            None => {},
            Some(snapshot) => {
                match find_source(sources, entry_key.as_str()) {
                    Some(k) => {
                        let ghost before = sources_view(sources@);
                        let current = sources.remove(k);
                        let mut profiles = current.profiles;
                        add_missing_profiles(&mut profiles, &snapshot.profiles);
                        let sorted = sort_profiles(profiles);
                        let updated = CameraSource {
                            source_id: current.source_id,
                            driver_id: current.driver_id,
                            display_name: current.display_name,
                            device_model: current.device_model,
                            serial_number: current.serial_number,
                            firmware_version: current.firmware_version,
                            connection_type: current.connection_type,
                            physical_port: current.physical_port,
                            sensors: current.sensors,
                            profiles: sorted,
                            driver_extensions: current.driver_extensions,
                            available: current.available,
                        };
                        sources.insert(k, updated);
                        proof {
                            assert(before[k as int] == source_view(current));
                            assert(sources_view(sources@) =~= before.update(
                                k as int,
                                source_view(updated),
                            ));
                        }
                    },
                    None => {
                        let ghost before = sources_view(sources@);
                        sources.push(disconnected_copy(snapshot));
                        assert(sources_view(sources@) =~= before.push(
                            disconnected(source_view(*snapshot)),
                        ));
                    },
                }
            },
        }
        i += 1;
    }
    assert(sv.take(n as int) =~= sv);
    let mut all: Vec<CameraSource> = Vec::new();
    core::mem::swap(&mut all, sources);
    *sources = sort_sources(all);
}

// ---------------------------------------------------------------------------------------
// Laws
// ---------------------------------------------------------------------------------------

/// Whether the list has a source with the id.
pub open spec fn lists(ss: Seq<SourceView>, id: Seq<char>) -> bool {
    exists|j: int| 0 <= j < ss.len() && #[trigger] ss[j].source_id == id
}

proof fn lemma_insert_by_keeps<T>(s: Seq<T>, x: T, key: spec_fn(T) -> Seq<char>)
    ensures
        forall|e: T| s.contains(e) ==> #[trigger] insert_by(s, x, key).contains(e),
        insert_by(s, x, key).contains(x),
    decreases s.len(),
{
    if s.len() == 0 {
        assert(seq![x][0] == x);
    } else if !seq_lt(key(x), key(s.last())) {
        assert forall|e: T| s.contains(e) implies #[trigger] insert_by(s, x, key).contains(e) by {
            let j = choose|j: int| 0 <= j < s.len() && s[j] == e;
            assert(s.push(x)[j] == e);
        }
        assert(s.push(x)[s.len() as int] == x);
    } else {
        let t = s.drop_last();
        lemma_insert_by_keeps(t, x, key);
        let rest = insert_by(t, x, key);
        assert(insert_by(s, x, key) == rest.push(s.last()));
        assert forall|e: T| s.contains(e) implies #[trigger] insert_by(s, x, key).contains(e) by {
            let j = choose|j: int| 0 <= j < s.len() && s[j] == e;
            if j == s.len() - 1 {
                assert(rest.push(s.last())[rest.len() as int] == e);
            } else {
                assert(t[j] == e);
                assert(t.contains(e));
                assert(rest.contains(e));
                let m = choose|m: int| 0 <= m < rest.len() && rest[m] == e;
                assert(rest.push(s.last())[m] == e);
            }
        }
        assert(rest.contains(x));
        let m = choose|m: int| 0 <= m < rest.len() && rest[m] == x;
        assert(rest.push(s.last())[m] == x);
    }
}

proof fn lemma_sort_by_keeps<T>(s: Seq<T>, key: spec_fn(T) -> Seq<char>)
    ensures
        forall|e: T| s.contains(e) ==> #[trigger] sort_by(s, key).contains(e),
    decreases s.len(),
{
    if s.len() > 0 {
        let t = s.drop_last();
        lemma_sort_by_keeps(t, key);
        lemma_insert_by_keeps(sort_by(t, key), s.last(), key);
        assert forall|e: T| s.contains(e) implies #[trigger] sort_by(s, key).contains(e) by {
            let j = choose|j: int| 0 <= j < s.len() && s[j] == e;
            if j < s.len() - 1 {
                assert(t[j] == e);
                assert(t.contains(e));
            }
        }
    }
}

proof fn lemma_sorted_lists(ss: Seq<SourceView>, id: Seq<char>)
    requires
        lists(ss, id),
    ensures
        lists(sort_by(ss, source_order()), id),
{
    lemma_sort_by_keeps(ss, source_order());
    let j = choose|j: int| 0 <= j < ss.len() && #[trigger] ss[j].source_id == id;
    assert(ss.contains(ss[j]));
    let sorted = sort_by(ss, source_order());
    assert(sorted.contains(ss[j]));
    let m = choose|m: int| 0 <= m < sorted.len() && sorted[m] == ss[j];
    assert(sorted[m].source_id == id);
}

proof fn lemma_merge_one_keeps(ss: Seq<SourceView>, saved: SavedView, id: Seq<char>)
    requires
        lists(ss, id),
    ensures
        lists(merge_one(ss, saved), id),
{
    let j = choose|j: int| 0 <= j < ss.len() && #[trigger] ss[j].source_id == id;
    let m = merge_one(ss, saved);
    match saved.source_snapshot {
        None => {},
        Some(snapshot) => match source_index(ss, saved.source_id) {
            Some(i) => {
                assert(m[j].source_id == id);
            },
            None => {
                assert(m[j].source_id == id);
            },
        },
    }
}

proof fn lemma_merge_one_adds(ss: Seq<SourceView>, saved: SavedView)
    requires
        saved.source_snapshot matches Some(snapshot) && snapshot.source_id == saved.source_id,
    ensures
        lists(merge_one(ss, saved), saved.source_id),
{
    let m = merge_one(ss, saved);
    let snapshot = saved.source_snapshot->0;
    match source_index(ss, saved.source_id) {
        Some(i) => {
            let p = source_is(ss, saved.source_id);
            assert(exists|c: int| first_where(ss.len() as int, p, c));
            let c = choose|c: int| first_where(ss.len() as int, p, c);
            assert(i == c);
            assert(p(i));
            assert(m[i].source_id == saved.source_id);
        },
        None => {
            assert(m[ss.len() as int].source_id == saved.source_id);
        },
    }
}

proof fn lemma_merge_all_keeps(ss: Seq<SourceView>, saved: Seq<SavedView>, id: Seq<char>)
    requires
        lists(ss, id),
    ensures
        lists(merge_all(ss, saved), id),
    decreases saved.len(),
{
    if saved.len() > 0 {
        lemma_merge_all_keeps(ss, saved.drop_last(), id);
        lemma_merge_one_keeps(merge_all(ss, saved.drop_last()), saved.last(), id);
    }
}

proof fn lemma_merge_all_adds(ss: Seq<SourceView>, saved: Seq<SavedView>, k: int)
    requires
        0 <= k < saved.len(),
        saved[k].source_snapshot matches Some(snapshot) && snapshot.source_id == saved[k].source_id,
    ensures
        lists(merge_all(ss, saved), saved[k].source_id),
    decreases saved.len(),
{
    let front = saved.drop_last();
    if k == saved.len() - 1 {
        lemma_merge_one_adds(merge_all(ss, front), saved.last());
    } else {
        assert(front[k] == saved[k]);
        lemma_merge_all_adds(ss, front, k);
        lemma_merge_one_keeps(merge_all(ss, front), saved.last(), saved[k].source_id);
    }
}

/// A saved camera stays listed, whether or not a driver reports it now (a saved
/// snapshot describes the source saved under its id).
pub proof fn saved_sources_stay_listed(ss: Seq<SourceView>, saved: Seq<SavedView>, k: int)
    requires
        0 <= k < saved.len(),
        saved[k].source_snapshot matches Some(snapshot) && snapshot.source_id == saved[k].source_id,
    ensures
        lists(merged_sources(ss, saved), saved[k].source_id),
{
    lemma_merge_all_adds(ss, saved, k);
    lemma_sorted_lists(merge_all(ss, saved), saved[k].source_id);
}

/// Merging saved choices never drops a discovered source.
pub proof fn discovered_sources_stay_listed(ss: Seq<SourceView>, saved: Seq<SavedView>, i: int)
    requires
        0 <= i < ss.len(),
    ensures
        lists(merged_sources(ss, saved), ss[i].source_id),
{
    assert(lists(ss, ss[i].source_id));
    lemma_merge_all_keeps(ss, saved, ss[i].source_id);
    lemma_sorted_lists(merge_all(ss, saved), ss[i].source_id);
}

/// A camera whose choices were saved stays listed after merging the saved choices,
/// connected or not (its saved snapshot describes the camera saved under its key).
pub proof fn saved_cameras_stay_listed(ss: Seq<SourceView>, saved: KeyedList<SavedProfiles>, key: Seq<char>)
    requires
        saved.wf(),
        saved@.dom().contains(key),
        saved@[key].source_snapshot matches Some(snapshot) && snapshot.source_id@ == key,
    ensures
        lists(merged_sources(ss, saved_list_view(saved)), key),
{
    saved.lemma_order();
    let i = choose|i: int| 0 <= i < saved.key_order().len() && saved.key_order()[i] == key;
    assert(saved@[saved.key_order()[i]] == saved.value_order()[i]);
    let sv = saved_list_view(saved);
    assert(sv[i] == saved_entry_view(key, saved.value_order()[i]));
    saved_sources_stay_listed(ss, sv, i);
}

} // verus!
