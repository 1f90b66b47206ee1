//! Camera source and stream-profile selection: which colour and depth profiles a request
//! selects, how saved choices apply, how driver-parameter changes merge and which of
//! them the source's driver reports.
use vstd::prelude::*;
use crate::text::{owned, str_eq};

verus! {

/// The two streams of an RGB-D camera.
#[derive(PartialEq, Eq, Structural, Clone, Copy)]
pub enum StreamKind {
    Color,
    Depth,
}

/// One stream profile a driver reports.
pub struct StreamProfile {
    pub key: String,
    pub stream: StreamKind,
    pub width: u32,
    pub height: u32,
    pub frames_per_second: u32,
    pub pixel_format: String,
    pub is_default: bool,
    pub available: bool,
    pub unavailable_reason: Option<String>,
}

/// One adjustable driver parameter; its bounds are carried as the bits of the
/// floating-point values the driver reported.
pub struct DriverParameter {
    pub key: String,
    pub display_name: String,
    pub read_only: bool,
    pub minimum_bits: u64,
    pub maximum_bits: u64,
}

/// The parameters a driver reports under one namespace.
pub struct DriverExtension {
    pub namespace: String,
    pub parameters: Vec<DriverParameter>,
}

/// A camera source as a driver reports it.
pub struct CameraSource {
    pub source_id: String,
    pub driver_id: String,
    pub display_name: String,
    pub device_model: Option<String>,
    pub serial_number: Option<String>,
    pub firmware_version: Option<String>,
    pub connection_type: Option<String>,
    pub physical_port: Option<String>,
    pub sensors: Vec<String>,
    pub profiles: Vec<StreamProfile>,
    pub driver_extensions: Vec<DriverExtension>,
    pub available: bool,
}

/// A requested or saved driver parameter value (the bits of its floating-point value).
pub struct ParameterValue {
    pub namespace: String,
    pub key: String,
    pub value_bits: u64,
}

/// What was last chosen for one source.
pub struct SavedProfiles {
    pub color_profile_key: String,
    pub depth_profile_key: String,
    pub output_frames_per_second_bits: Option<u64>,
    pub driver_parameters: Vec<ParameterValue>,
    /// The source as the driver reported it when the choice was saved.
    pub source_snapshot: Option<CameraSource>,
}

/// The profiles a selection resolves to, by position in the source's profiles, and the
/// highest output rate both streams support.
pub struct ProfileChoice {
    pub color: usize,
    pub depth: usize,
    pub maximum_frames_per_second: u32,
}

/// How one requested driver parameter relates to the driver's report.
#[derive(PartialEq, Eq, Structural)]
pub enum ParameterCheck {
    /// The same namespace and key was given earlier.
    Duplicate,
    /// The driver did not report it.
    Unknown,
    /// The driver reports it as information only (at this extension and parameter).
    ReadOnly(usize, usize),
    /// The driver reports it as adjustable (at this extension and parameter).
    Adjustable(usize, usize),
}

// ---------------------------------------------------------------------------------------
// Model
// ---------------------------------------------------------------------------------------

pub open spec fn opt_str(value: Option<&str>) -> Option<Seq<char>> {
    match value {
        Some(s) => Some(s@),
        None => None,
    }
}

/// The first profile of the stream that is default and available, else the first
/// available one.
pub open spec fn is_default_available(profiles: Seq<StreamProfile>, kind: StreamKind, i: int) -> bool {
    profiles[i].stream == kind && profiles[i].is_default && profiles[i].available
}

pub open spec fn is_available(profiles: Seq<StreamProfile>, kind: StreamKind, i: int) -> bool {
    profiles[i].stream == kind && profiles[i].available
}

pub open spec fn first_where(len: int, p: spec_fn(int) -> bool, i: int) -> bool {
    0 <= i < len && p(i) && forall|j: int| 0 <= j < i ==> !#[trigger] p(j)
}

pub open spec fn first_profile_spec(profiles: Seq<StreamProfile>, kind: StreamKind) -> Option<int> {
    let d = |i: int| is_default_available(profiles, kind, i);
    let a = |i: int| is_available(profiles, kind, i);
    if exists|i: int| first_where(profiles.len() as int, d, i) {
        Some(choose|i: int| first_where(profiles.len() as int, d, i))
    } else if exists|i: int| first_where(profiles.len() as int, a, i) {
        Some(choose|i: int| first_where(profiles.len() as int, a, i))
    } else {
        None
    }
}

pub open spec fn profile_matches(profiles: Seq<StreamProfile>, kind: StreamKind, key: Seq<char>, i: int) -> bool {
    profiles[i].stream == kind && profiles[i].key@ == key
}

pub open spec fn profile_offered(profiles: Seq<StreamProfile>, kind: StreamKind, key: Seq<char>) -> bool {
    exists|i: int| 0 <= i < profiles.len() && profile_matches(profiles, kind, key, i) && profiles[i].available
}

pub proof fn lemma_first_unique(len: int, p: spec_fn(int) -> bool, i: int, j: int)
    requires
        first_where(len, p, i),
        first_where(len, p, j),
    ensures
        i == j,
{
}

// ---------------------------------------------------------------------------------------
// Profiles
// ---------------------------------------------------------------------------------------

fn find_profile(profiles: &Vec<StreamProfile>, kind: StreamKind, key: &str, need_available: bool) -> (res: Option<usize>)
    ensures
        match res {
            Some(i) => i < profiles@.len() && profile_matches(profiles@, kind, key@, i as int) && (
            need_available ==> profiles@[i as int].available) && forall|j: int|
                0 <= j < i ==> !(#[trigger] profile_matches(profiles@, kind, key@, j) && (need_available
                    ==> profiles@[j].available)),
            None => forall|j: int|
                0 <= j < profiles@.len() ==> !(#[trigger] profile_matches(profiles@, kind, key@, j) && (
                need_available ==> profiles@[j].available)),
        },
{
    let mut i: usize = 0;
    while i < profiles.len()
        invariant
            i <= profiles@.len(),
            forall|j: int|
                0 <= j < i ==> !(#[trigger] profile_matches(profiles@, kind, key@, j) && (need_available
                    ==> profiles@[j].available)),
        decreases profiles@.len() - i,
    {
        if profiles[i].stream == kind && str_eq(profiles[i].key.as_str(), key) && (!need_available
            || profiles[i].available) {
            return Some(i);
        }
        i += 1;
    }
    None
}

/// The profile used when none is asked for: the first default available profile of the
/// stream, else its first available profile.
pub fn first_profile(source: &CameraSource, kind: StreamKind) -> (res: Option<usize>)
    ensures
        match res {
            Some(i) => Some(i as int) == first_profile_spec(source.profiles@, kind),
            None => first_profile_spec(source.profiles@, kind) is None,
        },
{
    let profiles = &source.profiles;
    let ghost d = |i: int| is_default_available(profiles@, kind, i);
    let ghost a = |i: int| is_available(profiles@, kind, i);
    let mut i: usize = 0;
    while i < profiles.len()
        invariant
            profiles == &source.profiles,
            d == (|i: int| is_default_available(profiles@, kind, i)),
            i <= profiles@.len(),
            forall|j: int| 0 <= j < i ==> !#[trigger] d(j),
        decreases profiles@.len() - i,
    {
        if profiles[i].stream == kind && profiles[i].is_default && profiles[i].available {
            proof {
                assert(first_where(profiles@.len() as int, d, i as int));
                let c = choose|c: int| first_where(profiles@.len() as int, d, c);
                lemma_first_unique(profiles@.len() as int, d, i as int, c);
            }
            return Some(i);
        }
        i += 1;
    }
    assert(!exists|i: int| first_where(profiles@.len() as int, d, i));
    let mut k: usize = 0;
    while k < profiles.len()
        invariant
            profiles == &source.profiles,
            a == (|i: int| is_available(profiles@, kind, i)),
            !exists|i: int| first_where(profiles@.len() as int, d, i),
            d == (|i: int| is_default_available(profiles@, kind, i)),
            k <= profiles@.len(),
            forall|j: int| 0 <= j < k ==> !#[trigger] a(j),
        decreases profiles@.len() - k,
    {
        if profiles[k].stream == kind && profiles[k].available {
            proof {
                assert(first_where(profiles@.len() as int, a, k as int));
                let c = choose|c: int| first_where(profiles@.len() as int, a, c);
                lemma_first_unique(profiles@.len() as int, a, k as int, c);
            }
            return Some(k);
        }
        k += 1;
    }
    assert(!exists|i: int| first_where(profiles@.len() as int, a, i));
    None
}

/// Why a chosen profile cannot be used.
pub enum ProfileError {
    /// No key was chosen for the stream.
    NotSelected(StreamKind),
    /// The chosen key is not an available profile of the stream.
    Unavailable(String),
}

/// `res` is what choosing the profile `key` of stream `kind` among `profiles` gives: the
/// first available profile of the stream with that key, else the key is unavailable;
/// without a key, nothing was selected.
pub open spec fn profile_selected(
    profiles: Seq<StreamProfile>,
    key: Option<Seq<char>>,
    kind: StreamKind,
    res: Result<usize, ProfileError>,
) -> bool {
    match key {
        None => res matches Err(ProfileError::NotSelected(k)) && k == kind,
        Some(k) => match res {
            Ok(i) => i < profiles.len() && profile_matches(profiles, kind, k, i as int) && profiles[i as int].available
                && forall|j: int| 0 <= j < i ==> !(#[trigger] profile_matches(profiles, kind, k, j) && profiles[j].available),
            Err(e) => (e matches ProfileError::Unavailable(name) && name@ == k) && !profile_offered(profiles, kind, k),
        },
    }
}

pub open spec fn key_view(key: Option<&str>) -> Option<Seq<char>> {
    match key {
        Some(k) => Some(k@),
        None => None,
    }
}

/// The profile chosen for a stream when starting: it must be an available profile of
/// that stream with the chosen key.
pub fn selected_profile(source: &CameraSource, key: Option<&str>, kind: StreamKind) -> (res: Result<
    usize,
    ProfileError,
>)
    ensures
        profile_selected(source.profiles@, key_view(key), kind, res),
{
    let key = match key {
        Some(k) => k,
        None => {
            return Err(ProfileError::NotSelected(kind));
        },
    };
    match find_profile(&source.profiles, kind, key, true) {
        Some(i) => Ok(i),
        None => {

            Err(ProfileError::Unavailable(owned(key)))
        },
    }
}

/// Why a selection is refused.
pub enum SelectError {
    NoSource,
    SourceNotInRefresh(String),
    NoProfile(StreamKind),
    NotReported(StreamKind),
    Unavailable(StreamKind, Option<String>),
}

/// The key chosen for a stream: the requested key, else the saved key when the source
/// still offers it, else the key of the stream's first default (or first) available
/// profile.
pub open spec fn chosen_key(
    profiles: Seq<StreamProfile>,
    kind: StreamKind,
    requested: Option<Seq<char>>,
    saved: Option<Seq<char>>,
) -> Option<Seq<char>> {
    if requested is Some {
        requested
    } else if saved is Some && profile_offered(profiles, kind, saved->0) {
        saved
    } else {
        match first_profile_spec(profiles, kind) {
            Some(i) => Some(profiles[i].key@),
            None => None,
        }
    }
}

pub open spec fn first_with_key(profiles: Seq<StreamProfile>, kind: StreamKind, key: Seq<char>, i: int) -> bool {
    0 <= i < profiles.len() && profile_matches(profiles, kind, key, i) && forall|j: int|
        0 <= j < i ==> !#[trigger] profile_matches(profiles, kind, key, j)
}

pub open spec fn saved_key(saved: Option<&SavedProfiles>, kind: StreamKind) -> Option<Seq<char>> {
    match saved {
        Some(s) => Some(
            match kind {
                StreamKind::Color => s.color_profile_key@,
                StreamKind::Depth => s.depth_profile_key@,
            },
        ),
        None => None,
    }
}

/// The first profile of the stream with the key, if any.
pub open spec fn first_key_index(profiles: Seq<StreamProfile>, kind: StreamKind, key: Seq<char>) -> Option<int> {
    if exists|i: int| first_with_key(profiles, kind, key, i) {
        Some(choose|i: int| first_with_key(profiles, kind, key, i))
    } else {
        None
    }
}

fn offered(profiles: &Vec<StreamProfile>, kind: StreamKind, key: &str) -> (res: bool)
    ensures
        res == profile_offered(profiles@, kind, key@),
{
    find_profile(profiles, kind, key, true).is_some()
}

/// The key chosen for a stream (`chosen_key`); without one, the source has no profile of
/// the stream.
fn choose_key(source: &CameraSource, kind: StreamKind, requested: Option<&str>, saved: Option<&SavedProfiles>) -> (res:
    Result<String, SelectError>)
    ensures
        match chosen_key(source.profiles@, kind, opt_str(requested), saved_key(saved, kind)) {
            Some(k) => res matches Ok(key) && key@ == k,
            None => res matches Err(SelectError::NoProfile(k)) && k == kind,
        },
{
    let profiles = &source.profiles;
    let saved_name: Option<&str> = match saved {
        Some(s) => Some(
            match kind {
                StreamKind::Color => s.color_profile_key.as_str(),
                StreamKind::Depth => s.depth_profile_key.as_str(),
            },
        ),
        None => None,
    };
    assert(opt_str(saved_name) == saved_key(saved, kind));
    match requested {
        Some(k) => Ok(owned(k)),
        None => {
            let from_saved = match saved_name {
                Some(k) => if offered(profiles, kind, k) {
                    Some(k)
                } else {
                    None
                },
                None => None,
            };
            match from_saved {
                Some(k) => Ok(owned(k)),
                None => match first_profile(source, kind) {
                    Some(i) => Ok(profiles[i].key.clone()),
                    None => Err(SelectError::NoProfile(kind)),
                },
            }
        },
    }
}

/// The first profile of the stream with the key.
fn profile_index(profiles: &Vec<StreamProfile>, kind: StreamKind, key: &str) -> (res: Option<usize>)
    ensures
        match res {
            Some(i) => first_key_index(profiles@, kind, key@) == Some(i as int),
            None => first_key_index(profiles@, kind, key@) is None,
        },
{
    match find_profile(profiles, kind, key, false) {
        Some(i) => {
            proof {
                assert(first_with_key(profiles@, kind, key@, i as int));
                let c = choose|c: int| first_with_key(profiles@, kind, key@, c);
                if c < i {
                    assert(!(profile_matches(profiles@, kind, key@, c) && (false ==> profiles@[c].available)));
                }
                if i < c {
                    assert(!profile_matches(profiles@, kind, key@, i as int));
                }
            }
            Some(i)
        },
        None => {
            proof {
                assert forall|c: int| !first_with_key(profiles@, kind, key@, c) by {
                    if 0 <= c < profiles@.len() {
                        assert(!(profile_matches(profiles@, kind, key@, c) && (false ==> profiles@[c].available)));
                    }
                }
            }
            None
        },
    }
}

fn clone_opt(value: &Option<String>) -> (res: Option<String>)
    ensures
        match (res, *value) {
            (Some(a), Some(b)) => a@ == b@,
            (None, None) => true,
            _ => false,
        },
{
    match value {
        Some(s) => Some(s.clone()),
        None => None,
    }
}

/// What a selection of the keys `ck` (colour) and `dk` (depth), each chosen or not, gives:
/// both keys must be chosen (colour first), then both must name a reported profile
/// (colour first), then both profiles must be available (colour first); the output rate
/// is at most the slower of the two.
pub open spec fn selection_result(
    profiles: Seq<StreamProfile>,
    ck: Option<Seq<char>>,
    dk: Option<Seq<char>>,
    res: Result<ProfileChoice, SelectError>,
) -> bool {
    match (ck, dk) {
        (None, _) => res matches Err(SelectError::NoProfile(k)) && k == StreamKind::Color,
        (Some(_), None) => res matches Err(SelectError::NoProfile(k)) && k == StreamKind::Depth,
        (Some(c), Some(d)) => match (first_key_index(profiles, StreamKind::Color, c), first_key_index(profiles, StreamKind::Depth, d)) {
            (None, _) => res matches Err(SelectError::NotReported(k)) && k == StreamKind::Color,
            (Some(_), None) => res matches Err(SelectError::NotReported(k)) && k == StreamKind::Depth,
            (Some(ci), Some(di)) => if !profiles[ci].available {
                res matches Err(SelectError::Unavailable(k, r)) && k == StreamKind::Color && reason_matches(
                    r,
                    profiles[ci].unavailable_reason,
                )
            } else if !profiles[di].available {
                res matches Err(SelectError::Unavailable(k, r)) && k == StreamKind::Depth && reason_matches(
                    r,
                    profiles[di].unavailable_reason,
                )
            } else {
                res matches Ok(choice) && choice.color == ci && choice.depth == di && choice.maximum_frames_per_second
                    == if profiles[ci].frames_per_second <= profiles[di].frames_per_second {
                    profiles[ci].frames_per_second
                } else {
                    profiles[di].frames_per_second
                }
            },
        },
    }
}

/// Resolves the colour and depth profiles of a selection (the requested keys, else
/// the saved ones still offered, else the defaults), checks both are reported and
/// available, and gives the highest output rate both support.
pub fn choose_profiles(
    source: &CameraSource,
    saved: Option<&SavedProfiles>,
    color_key: Option<&str>,
    depth_key: Option<&str>,
) -> (res: Result<ProfileChoice, SelectError>)
    ensures
        selection_result(
            source.profiles@,
            chosen_key(source.profiles@, StreamKind::Color, opt_str(color_key), saved_key(saved, StreamKind::Color)),
            chosen_key(source.profiles@, StreamKind::Depth, opt_str(depth_key), saved_key(saved, StreamKind::Depth)),
            res,
        ),
{
    let ck = match choose_key(source, StreamKind::Color, color_key, saved) {
        Ok(k) => k,
        Err(e) => {
            return Err(e);
        },
    };
    let dk = match choose_key(source, StreamKind::Depth, depth_key, saved) {
        Ok(k) => k,
        Err(e) => {
            return Err(e);
        },
    };
    let color = match profile_index(&source.profiles, StreamKind::Color, ck.as_str()) {
        Some(i) => i,
        None => {
            return Err(SelectError::NotReported(StreamKind::Color));
        },
    };
    let depth = match profile_index(&source.profiles, StreamKind::Depth, dk.as_str()) {
        Some(i) => i,
        None => {
            return Err(SelectError::NotReported(StreamKind::Depth));
        },
    };
    proof {
        let c = choose|i: int| first_with_key(source.profiles@, StreamKind::Color, ck@, i);
        let d = choose|i: int| first_with_key(source.profiles@, StreamKind::Depth, dk@, i);
        assert(c < source.profiles@.len() && d < source.profiles@.len());
    }
    let c = &source.profiles[color];
    let d = &source.profiles[depth];
    if !c.available {
        return Err(SelectError::Unavailable(StreamKind::Color, clone_opt(&c.unavailable_reason)));
    }
    if !d.available {
        return Err(SelectError::Unavailable(StreamKind::Depth, clone_opt(&d.unavailable_reason)));
    }
    let maximum = if c.frames_per_second <= d.frames_per_second {
        c.frames_per_second
    } else {
        d.frames_per_second
    };
    Ok(ProfileChoice { color, depth, maximum_frames_per_second: maximum })
}

pub open spec fn reason_matches(a: Option<String>, b: Option<String>) -> bool {
    match (a, b) {
        (Some(x), Some(y)) => x@ == y@,
        (None, None) => true,
        _ => false,
    }
}

/// The position of the selectable source: the request must name one, and it must be
/// available in the latest refresh.
pub fn find_selectable_source(sources: &Vec<CameraSource>, source_id: Option<&str>) -> (res: Result<
    usize,
    SelectError,
>)
    ensures
        source_id is None ==> res is Err && res->Err_0 is NoSource,
        source_id matches Some(id) ==> match res {
            Ok(i) => i < sources@.len() && sources@[i as int].source_id@ == id@ && sources@[i as int].available
                && forall|j: int| 0 <= j < i ==> !(sources@[j].source_id@ == id@ && sources@[j].available),
            Err(e) => (e matches SelectError::SourceNotInRefresh(name) && name@ == id@) && forall|j: int|
                0 <= j < sources@.len() ==> !(sources@[j].source_id@ == id@ && sources@[j].available),
        },
{
    let id = match source_id {
        Some(id) => id,
        None => {
            return Err(SelectError::NoSource);
        },
    };
    let mut i: usize = 0;
    while i < sources.len()
        invariant
            source_id == Some(id),
            i <= sources@.len(),
            forall|j: int| 0 <= j < i ==> !(sources@[j].source_id@ == id@ && sources@[j].available),
        decreases sources@.len() - i,
    {
        if str_eq(sources[i].source_id.as_str(), id) && sources[i].available {
            return Ok(i);
        }
        i += 1;
    }
    Err(SelectError::SourceNotInRefresh(owned(id)))
}

pub open spec fn same_parameter(a: ParameterValue, b: ParameterValue) -> bool {
    a.namespace@ == b.namespace@ && a.key@ == b.key@
}

pub open spec fn value_view(v: ParameterValue) -> (Seq<char>, Seq<char>, u64) {
    (v.namespace@, v.key@, v.value_bits)
}

/// The position of the first value from `from` on with this namespace and key, or -1.
pub open spec fn find_from(values: Seq<(Seq<char>, Seq<char>, u64)>, namespace: Seq<char>, key: Seq<char>, from: int) -> int
    decreases values.len() - from,
{
    if from < 0 || from >= values.len() {
        -1
    } else if values[from].0 == namespace && values[from].1 == key {
        from
    } else {
        find_from(values, namespace, key, from + 1)
    }
}

/// Applies one change to a list of parameter values: it replaces the first value with
/// the same namespace and key, else it is appended.
pub open spec fn apply_change(values: Seq<(Seq<char>, Seq<char>, u64)>, change: (Seq<char>, Seq<char>, u64)) -> Seq<
    (Seq<char>, Seq<char>, u64),
> {
    let i = find_from(values, change.0, change.1, 0);
    if i >= 0 {
        values.update(i, change)
    } else {
        values.push(change)
    }
}

proof fn lemma_find_from_skip(values: Seq<(Seq<char>, Seq<char>, u64)>, namespace: Seq<char>, key: Seq<char>, j: int)
    requires
        0 <= j <= values.len(),
        forall|m: int| 0 <= m < j ==> !(values[m].0 == namespace && values[m].1 == key),
    ensures
        find_from(values, namespace, key, 0) == find_from(values, namespace, key, j),
    decreases j,
{
    if j > 0 {
        lemma_find_from_skip(values, namespace, key, j - 1);
    }
}

proof fn lemma_find_from_none(values: Seq<(Seq<char>, Seq<char>, u64)>, namespace: Seq<char>, key: Seq<char>)
    ensures
        find_from(values, namespace, key, values.len() as int) == -1,
{
}

pub open spec fn apply_changes(values: Seq<(Seq<char>, Seq<char>, u64)>, changes: Seq<(Seq<char>, Seq<char>, u64)>) -> Seq<
    (Seq<char>, Seq<char>, u64),
>
    decreases changes.len(),
{
    if changes.len() == 0 {
        values
    } else {
        apply_change(apply_changes(values, changes.drop_last()), changes.last())
    }
}

pub open spec fn values_view(values: Seq<ParameterValue>) -> Seq<(Seq<char>, Seq<char>, u64)> {
    values.map_values(|v: ParameterValue| value_view(v))
}

fn copy_value(v: &ParameterValue) -> (res: ParameterValue)
    ensures
        value_view(res) == value_view(*v),
{
    ParameterValue { namespace: v.namespace.clone(), key: v.key.clone(), value_bits: v.value_bits }
}

/// The driver parameters of a selection: the saved values with each requested change
/// applied in order (replacing the value with the same namespace and key, else added).
pub fn merge_parameter_changes(saved: Option<&SavedProfiles>, changes: Option<&Vec<ParameterValue>>) -> (res: Vec<
    ParameterValue,
>)
    ensures
        values_view(res@) == apply_changes(
            match saved {
                Some(s) => values_view(s.driver_parameters@),
                None => Seq::empty(),
            },
            match changes {
                Some(c) => values_view(c@),
                None => Seq::empty(),
            },
        ),
{
    let mut values: Vec<ParameterValue> = Vec::new();
    match saved {
        Some(s) => {
            let mut i: usize = 0;
            while i < s.driver_parameters.len()
                invariant
                    i <= s.driver_parameters@.len(),
                    values_view(values@) == values_view(s.driver_parameters@).take(i as int),
                decreases s.driver_parameters@.len() - i,
            {
                let ghost old_values = values_view(values@);
                let copied = copy_value(&s.driver_parameters[i]);
                assert(value_view(copied) == values_view(s.driver_parameters@)[i as int]);
                values.push(copied);
                assert(values_view(values@) =~= old_values.push(value_view(copied)));
                assert(values_view(s.driver_parameters@).take(i as int + 1) =~= values_view(s.driver_parameters@).take(i as int).push(values_view(s.driver_parameters@)[i as int]));
                i += 1;
            }
            assert(values_view(s.driver_parameters@).take(s.driver_parameters@.len() as int) =~= values_view(s.driver_parameters@));
        },
        None => {
            assert(values_view(values@) =~= Seq::<(Seq<char>, Seq<char>, u64)>::empty());
        },
    }
    let ghost base = values_view(values@);
    match changes {
        Some(c) => {
            let mut k: usize = 0;
            assert(values_view(c@).take(0) =~= Seq::<(Seq<char>, Seq<char>, u64)>::empty());
            while k < c.len()
                invariant
                    k <= c@.len(),
                    values_view(values@) == apply_changes(base, values_view(c@).take(k as int)),
                decreases c@.len() - k,
            {
                let change = &c[k];
                let ghost before = values_view(values@);
                let ghost cv = value_view(*change);
                let mut j: usize = 0;
                let mut found: Option<usize> = None;
                while j < values.len()
                    invariant
                        j <= values@.len(),
                        before == values_view(values@),
                        cv == value_view(*change),
                        match found {
                            Some(x) => x < values@.len() && find_from(before, cv.0, cv.1, 0) == x as int,
                            None => forall|m: int| 0 <= m < j ==> !(before[m].0 == cv.0 && before[m].1 == cv.1),
                        },
                    decreases values@.len() - j,
                {
                    if found.is_none() && values[j].namespace == change.namespace && values[j].key == change.key {
                        proof {
                            lemma_find_from_skip(before, cv.0, cv.1, j as int);
                        }
                        found = Some(j);
                    }
                    j += 1;
                }
                match found {
                    Some(x) => {
                        values.set(x, copy_value(change));
                        proof {
                            assert(values_view(values@) =~= apply_change(before, cv));
                        }
                    },
                    None => {
                        proof {
                            lemma_find_from_skip(before, cv.0, cv.1, before.len() as int);
                            lemma_find_from_none(before, cv.0, cv.1);
                        }
                        values.push(copy_value(change));
                        assert(values_view(values@) =~= apply_change(before, cv));
                    },
                }
                proof {
                    assert(values_view(c@).take(k as int + 1).drop_last() =~= values_view(c@).take(k as int));
                    assert(values_view(c@).take(k as int + 1).last() == cv);
                }
                k += 1;
            }
            assert(values_view(c@).take(c@.len() as int) =~= values_view(c@));
        },
        None => {},
    }
    values
}

pub open spec fn duplicate_before(values: Seq<ParameterValue>, i: int) -> bool {
    exists|j: int| 0 <= j < i && same_parameter(values[j], values[i])
}

/// How one requested value relates to the source's drivers: unreported, read-only or
/// adjustable, with where the driver reports it (the first extension with its
/// namespace, and its first parameter with the key).
pub open spec fn locate_spec(source: CameraSource, value: ParameterValue, check: ParameterCheck) -> bool {
    let ext = source.driver_extensions@;
    match check {
        ParameterCheck::Duplicate => false,
        ParameterCheck::Unknown => forall|e: int|
            0 <= e < ext.len() && ext[e].namespace@ == value.namespace@ && (forall|e0: int|
                0 <= e0 < e ==> ext[e0].namespace@ != value.namespace@) ==> forall|p: int|
                0 <= p < ext[e].parameters@.len() ==> ext[e].parameters@[p].key@ != value.key@,
        ParameterCheck::ReadOnly(e, p) | ParameterCheck::Adjustable(e, p) => {
            &&& e < ext.len()
            &&& ext[e as int].namespace@ == value.namespace@
            &&& forall|e0: int| 0 <= e0 < e ==> ext[e0].namespace@ != value.namespace@
            &&& p < ext[e as int].parameters@.len()
            &&& ext[e as int].parameters@[p as int].key@ == value.key@
            &&& forall|p0: int| 0 <= p0 < p ==> ext[e as int].parameters@[p0].key@ != value.key@
            &&& (check is ReadOnly <==> ext[e as int].parameters@[p as int].read_only)
        },
    }
}

/// How the i-th requested value relates to the drivers: a repeat of an earlier value,
/// else where (and whether adjustable) the driver reports it.
pub open spec fn check_spec(source: CameraSource, values: Seq<ParameterValue>, i: int, check: ParameterCheck) -> bool {
    if duplicate_before(values, i) {
        check == ParameterCheck::Duplicate
    } else {
        locate_spec(source, values[i], check)
    }
}

fn locate(source: &CameraSource, value: &ParameterValue) -> (res: ParameterCheck)
    ensures
        locate_spec(*source, *value, res),
{
    let ext = &source.driver_extensions;
    let mut e: usize = 0;
    while e < ext.len()
        invariant
            ext == &source.driver_extensions,
            e <= ext@.len(),
            forall|e0: int| 0 <= e0 < e ==> ext@[e0].namespace@ != value.namespace@,
        decreases ext@.len() - e,
    {
        if ext[e].namespace == value.namespace {
            let params = &ext[e].parameters;
            let mut p: usize = 0;
            while p < params.len()
                invariant
                    ext == &source.driver_extensions,
                    e < ext@.len(),
                    ext@[e as int].namespace@ == value.namespace@,
                    forall|e0: int| 0 <= e0 < e ==> ext@[e0].namespace@ != value.namespace@,
                    params == ext@[e as int].parameters,
                    p <= params@.len(),
                    forall|p0: int| 0 <= p0 < p ==> params@[p0].key@ != value.key@,
                decreases params@.len() - p,
            {
                if params[p].key == value.key {
                    if params[p].read_only {
                        return ParameterCheck::ReadOnly(e, p);
                    } else {
                        return ParameterCheck::Adjustable(e, p);
                    }
                }
                p += 1;
            }
            proof {
                assert forall|e2: int|
                    0 <= e2 < ext@.len() && ext@[e2].namespace@ == value.namespace@ && (forall|e0: int|
                        0 <= e0 < e2 ==> ext@[e0].namespace@ != value.namespace@) implies forall|p2: int|
                    0 <= p2 < ext@[e2].parameters@.len() ==> ext@[e2].parameters@[p2].key@ != value.key@ by {
                    if e2 != e {
                        if e2 > e {
                            assert(ext@[e as int].namespace@ == value.namespace@);
                        }
                    }
                }
            }
            return ParameterCheck::Unknown;
        }
        e += 1;
    }
    ParameterCheck::Unknown
}

/// How each requested value relates to the drivers of the source, in request order.
pub fn check_driver_parameters(source: &CameraSource, values: &Vec<ParameterValue>) -> (res: Vec<ParameterCheck>)
    ensures
        res@.len() == values@.len(),
        forall|i: int| 0 <= i < values@.len() ==> check_spec(*source, values@, i, #[trigger] res@[i]),
{
    let mut res: Vec<ParameterCheck> = Vec::new();
    let mut i: usize = 0;
    while i < values.len()
        invariant
            i <= values@.len(),
            res@.len() == i,
            forall|k: int| 0 <= k < i ==> check_spec(*source, values@, k, #[trigger] res@[k]),
        decreases values@.len() - i,
    {
        let mut duplicate = false;
        let mut j: usize = 0;
        while j < i
            invariant
                i < values@.len(),
                j <= i,
                duplicate == exists|m: int| 0 <= m < j && same_parameter(values@[m], values@[i as int]),
            decreases i - j,
        {
            if values[j].namespace == values[i].namespace && values[j].key == values[i].key {
                duplicate = true;
            }
            j += 1;
        }
        if duplicate {
            res.push(ParameterCheck::Duplicate);
        } else {
            let located = locate(source, &values[i]);
            res.push(located);
        }
        i += 1;
    }
    res
}

fn is_adjustable(check: &ParameterCheck) -> (res: bool)
    ensures
        res == check is Adjustable,
{
    match check {
        ParameterCheck::Adjustable(_, _) => true,
        _ => false,
    }
}

/// The first refused value in request order: one that repeats an earlier value, that
/// no driver reports, that is read-only, or (by `in_range`) whose value lies outside
/// the reported bounds.
pub fn first_parameter_error(checks: &Vec<ParameterCheck>, in_range: &Vec<bool>) -> (res: Option<usize>)
    requires
        checks@.len() == in_range@.len(),
    ensures
        match res {
            Some(i) => i < checks@.len() && !((checks@[i as int] is Adjustable) && in_range@[i as int])
                && forall|j: int| 0 <= j < i ==> ((#[trigger] checks@[j]) is Adjustable) && in_range@[j],
            None => forall|j: int| 0 <= j < checks@.len() ==> ((#[trigger] checks@[j]) is Adjustable) && in_range@[j],
        },
{
    let mut i: usize = 0;
    while i < checks.len()
        invariant
            checks@.len() == in_range@.len(),
            i <= checks@.len(),
            forall|j: int| 0 <= j < i ==> ((#[trigger] checks@[j]) is Adjustable) && in_range@[j],
        decreases checks@.len() - i,
    {
        let ok = is_adjustable(&checks[i]) && in_range[i];
        if !ok {
            return Some(i);
        }
        i += 1;
    }
    None
}


// ---------------------------------------------------------------------------------------
// Messages
// ---------------------------------------------------------------------------------------

/// The name of a stream in messages (`Debug` of the stream kind).
pub open spec fn kind_name(kind: StreamKind) -> Seq<char> {
    match kind {
        StreamKind::Color => "Color"@,
        StreamKind::Depth => "Depth"@,
    }
}

/// The Chinese name of a stream in selection messages.
pub open spec fn kind_label(kind: StreamKind) -> Seq<char> {
    match kind {
        StreamKind::Color => "彩色"@,
        StreamKind::Depth => "深度"@,
    }
}

pub open spec fn profile_error_text(error: ProfileError) -> Seq<char> {
    match error {
        ProfileError::NotSelected(kind) => "尚未选择 "@ + kind_name(kind) + " profile"@,
        ProfileError::Unavailable(key) => "profile "@ + key@ + " 当前不可用"@,
    }
}

pub open spec fn select_error_text(error: SelectError) -> Seq<char> {
    match error {
        SelectError::NoSource => "请选择相机来源"@,
        SelectError::SourceNotInRefresh(id) => "来源 "@ + id@ + " 不在最近一次刷新结果中"@,
        SelectError::NoProfile(kind) => "来源没有"@ + kind_label(kind) + " profile"@,
        SelectError::NotReported(kind) => "所选"@ + kind_label(kind) + " profile 不是驱动最近报告的能力"@,
        SelectError::Unavailable(kind, reason) => "所选"@ + kind_label(kind) + " profile 当前不可用："@ + match reason {
            Some(r) => r@,
            None => "未知原因"@,
        },
    }
}

fn kind_name_text(kind: StreamKind) -> (res: String)
    ensures
        res@ == kind_name(kind),
{
    match kind {
        StreamKind::Color => owned("Color"),
        StreamKind::Depth => owned("Depth"),
    }
}

fn kind_label_text(kind: StreamKind) -> (res: String)
    ensures
        res@ == kind_label(kind),
{
    match kind {
        StreamKind::Color => owned("彩色"),
        StreamKind::Depth => owned("深度"),
    }
}

impl ProfileError {
    /// The message reported when starting is refused.
    pub fn message(&self) -> (res: String)
        ensures
            res@ == profile_error_text(*self),
    {
        match self {
            ProfileError::NotSelected(kind) => {
                let mut m = owned("尚未选择 ");
                m.append(kind_name_text(*kind).as_str());
                m.append(" profile");
                m
            },
            ProfileError::Unavailable(key) => {
                let mut m = owned("profile ");
                m.append(key.as_str());
                m.append(" 当前不可用");
                m
            },
        }
    }
}

impl SelectError {
    /// The message reported when a selection is refused.
    pub fn message(&self) -> (res: String)
        ensures
            res@ == select_error_text(*self),
    {
        match self {
            SelectError::NoSource => owned("请选择相机来源"),
            SelectError::SourceNotInRefresh(id) => {
                let mut m = owned("来源 ");
                m.append(id.as_str());
                m.append(" 不在最近一次刷新结果中");
                m
            },
            SelectError::NoProfile(kind) => {
                let mut m = owned("来源没有");
                m.append(kind_label_text(*kind).as_str());
                m.append(" profile");
                m
            },
            SelectError::NotReported(kind) => {
                let mut m = owned("所选");
                m.append(kind_label_text(*kind).as_str());
                m.append(" profile 不是驱动最近报告的能力");
                m
            },
            SelectError::Unavailable(kind, reason) => {
                let mut m = owned("所选");
                m.append(kind_label_text(*kind).as_str());
                m.append(" profile 当前不可用：");
                match reason {
                    Some(r) => m.append(r.as_str()),
                    None => m.append("未知原因"),
                }
                m
            },
        }
    }
}

/// The message for a refused driver parameter that is repeated, unreported or
/// read-only; `None` for one the driver reports as adjustable (its range is checked
/// on the floating-point value).
pub fn parameter_error_message(source: &CameraSource, value: &ParameterValue, check: &ParameterCheck) -> (res: Option<String>)
    requires
        locate_spec(*source, *value, *check) || *check == ParameterCheck::Duplicate,
    ensures
        match *check {
            ParameterCheck::Duplicate => res matches Some(m) && m@ == "驱动参数 "@ + value.namespace@ + " / "@ + value.key@ + " 重复"@,
            ParameterCheck::Unknown => res matches Some(m) && m@ == "驱动最近没有报告参数 "@ + value.namespace@ + " / "@ + value.key@,
            ParameterCheck::ReadOnly(e, p) => res matches Some(m) && m@ == "驱动参数 "@
                + source.driver_extensions@[e as int].parameters@[p as int].display_name@ + " 是只读信息"@,
            ParameterCheck::Adjustable(_, _) => res is None,
        },
{
    match check {
        ParameterCheck::Duplicate => {
            let mut m = owned("驱动参数 ");
            m.append(value.namespace.as_str());
            m.append(" / ");
            m.append(value.key.as_str());
            m.append(" 重复");
            Some(m)
        },
        ParameterCheck::Unknown => {
            let mut m = owned("驱动最近没有报告参数 ");
            m.append(value.namespace.as_str());
            m.append(" / ");
            m.append(value.key.as_str());
            Some(m)
        },
        ParameterCheck::ReadOnly(e, p) => {
            let mut m = owned("驱动参数 ");
            m.append(source.driver_extensions[*e].parameters[*p].display_name.as_str());
            m.append(" 是只读信息");
            Some(m)
        },
        ParameterCheck::Adjustable(_, _) => None,
    }
}

} // verus!
