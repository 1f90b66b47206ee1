//! One selection request of a camera node, from the request to the choice that is saved.
//! The checks run in the node's order: the source, the two profile keys, the two
//! profiles, the output rate, then each driver parameter in request order. The two
//! checks on floating-point values (the output rate and a parameter's range) are made by
//! the caller on the prepared selection and handed back as booleans.
use vstd::prelude::*;
use crate::camera_config::CameraConfig;
use crate::camera_selection::{
    check_driver_parameters, check_spec, choose_profiles, chosen_key, find_selectable_source, first_parameter_error,
    merge_parameter_changes, apply_changes, opt_str, saved_key, selection_result, values_view, CameraSource,
    ParameterCheck, ParameterValue, ProfileChoice, SavedProfiles, SelectError, StreamKind,
};
use crate::camera_sources::{copy_source, opt_view, source_view};
use crate::camera_stream::{selection_taken, ChosenSelection, Selection, StreamState};

verus! {

/// A selection request: each field may be left out.
pub struct SelectRequest {
    pub source_id: Option<String>,
    pub color_profile_key: Option<String>,
    pub depth_profile_key: Option<String>,
    /// The bits of the floating-point output rate.
    pub output_frames_per_second_bits: Option<u64>,
    /// Changes to the saved driver parameters.
    pub driver_parameters: Option<Vec<ParameterValue>>,
}

/// A request that passed the checks that need no floating-point value.
pub struct PreparedSelection {
    /// The position of the selected source among the refreshed sources.
    pub source: usize,
    pub choice: ProfileChoice,
    /// The requested output rate, else the saved one; `None` stands for the maximum
    /// (`choice.maximum_frames_per_second`).
    pub output_frames_per_second_bits: Option<u64>,
    /// The saved parameters with the requested changes applied.
    pub driver_parameters: Vec<ParameterValue>,
    /// How each of those parameters relates to the source's drivers.
    pub checks: Vec<ParameterCheck>,
}

/// Why a prepared selection is refused.
pub enum CheckRefusal {
    /// The output rate is not above 0 and at most the maximum.
    OutputRate,
    /// The driver parameter at this position is repeated, unreported, read-only or out
    /// of its range (the first such one).
    Parameter(usize),
}

/// The first available source with this id.
pub open spec fn first_available(sources: Seq<CameraSource>, id: Seq<char>, i: int) -> bool {
    &&& 0 <= i < sources.len()
    &&& sources[i].source_id@ == id
    &&& sources[i].available
    &&& forall|j: int| 0 <= j < i ==> !(sources[j].source_id@ == id && sources[j].available)
}

/// The choice saved for a camera, if any.
pub open spec fn saved_for<R>(config: CameraConfig<R>, id: Seq<char>) -> Option<SavedProfiles> {
    if config.profiles@.dom().contains(id) {
        Some(config.profiles@[id])
    } else {
        None
    }
}

pub open spec fn stored_key(saved: Option<SavedProfiles>, kind: StreamKind) -> Option<Seq<char>> {
    match saved {
        Some(s) => Some(
            match kind {
                StreamKind::Color => s.color_profile_key@,
                StreamKind::Depth => s.depth_profile_key@,
            },
        ),
        None => None,
    }
}

pub open spec fn choice_of(res: Result<PreparedSelection, SelectError>) -> Result<ProfileChoice, SelectError> {
    match res {
        Ok(p) => Ok(p.choice),
        Err(e) => Err(e),
    }
}

/// What preparing the request gives once its source is the `i`-th one.
pub open spec fn prepared_from(
    sources: Seq<CameraSource>,
    i: int,
    saved: Option<SavedProfiles>,
    request: SelectRequest,
    res: Result<PreparedSelection, SelectError>,
) -> bool {
    let profiles = sources[i].profiles@;
    &&& selection_result(
        profiles,
        chosen_key(profiles, StreamKind::Color, opt_view(request.color_profile_key), stored_key(saved, StreamKind::Color)),
        chosen_key(profiles, StreamKind::Depth, opt_view(request.depth_profile_key), stored_key(saved, StreamKind::Depth)),
        choice_of(res),
    )
    &&& res matches Ok(p) ==> {
        &&& p.source == i
        &&& p.output_frames_per_second_bits == match request.output_frames_per_second_bits {
            Some(b) => Some(b),
            None => match saved {
                Some(s) => s.output_frames_per_second_bits,
                None => None,
            },
        }
        &&& values_view(p.driver_parameters@) == apply_changes(
            match saved {
                Some(s) => values_view(s.driver_parameters@),
                None => Seq::empty(),
            },
            match request.driver_parameters {
                Some(c) => values_view(c@),
                None => Seq::empty(),
            },
        )
        &&& p.checks@.len() == p.driver_parameters@.len()
        &&& forall|k: int|
            0 <= k < p.checks@.len() ==> check_spec(sources[i], p.driver_parameters@, k, #[trigger] p.checks@[k])
    }
}

fn as_text(value: &Option<String>) -> (res: Option<&str>)
    ensures
        opt_str(res) == opt_view(*value),
{
    match value {
        Some(s) => Some(s.as_str()),
        None => None,
    }
}

/// Takes a selection request through the checks that need no floating-point value: the
/// request must name a source that the latest refresh lists as available, and its
/// profiles must resolve (`choose_profiles`, with the choice saved for that camera).
/// The output rate and the driver parameters are resolved against the saved choice.
pub fn prepare_selection<R>(sources: &Vec<CameraSource>, config: &CameraConfig<R>, request: &SelectRequest) -> (res:
    Result<PreparedSelection, SelectError>)
    requires
        config.wf(),
    ensures
        match request.source_id {
            None => res matches Err(SelectError::NoSource),
            Some(id) => if exists|i: int| first_available(sources@, id@, i) {
                forall|i: int|
                    first_available(sources@, id@, i) ==> prepared_from(
                        sources@,
                        i,
                        saved_for(*config, id@),
                        *request,
                        res,
                    )
            } else {
                res matches Err(SelectError::SourceNotInRefresh(name)) && name@ == id@
            },
        },
{
    let i = match find_selectable_source(sources, as_text(&request.source_id)) {
        Ok(i) => i,
        Err(e) => {
            proof {
                match &request.source_id {
                    Some(id) => {
                        assert forall|i: int| !first_available(sources@, id@, i) by {
                            if 0 <= i < sources@.len() {
                                assert(!(sources@[i].source_id@ == id@ && sources@[i].available));
                            }
                        }
                    },
                    None => {},
                }
            }
            return Err(e);
        },
    };
    let id = match &request.source_id {
        Some(id) => id,
        None => {
            return Err(SelectError::NoSource);
        },
    };
    proof {
        assert(first_available(sources@, id@, i as int));
        assert forall|j: int| first_available(sources@, id@, j) implies j == i by {
            if j < i {
                assert(!(sources@[j].source_id@ == id@ && sources@[j].available));
            }
            if i < j {
                assert(!(sources@[i as int].source_id@ == id@ && sources@[i as int].available));
            }
        }
    }
    let source = &sources[i];
    let saved = config.profiles.get(id.as_str());
    let ghost stored = saved_for(*config, id@);
    assert(saved_key(saved, StreamKind::Color) == stored_key(stored, StreamKind::Color));
    assert(saved_key(saved, StreamKind::Depth) == stored_key(stored, StreamKind::Depth));
    let choice = match choose_profiles(
        source,
        saved,
        as_text(&request.color_profile_key),
        as_text(&request.depth_profile_key),
    ) {
        Ok(c) => c,
        Err(e) => {
            return Err(e);
        },
    };
    let output_frames_per_second_bits = match request.output_frames_per_second_bits {
        Some(b) => Some(b),
        None => match saved {
            Some(s) => s.output_frames_per_second_bits,
            None => None,
        },
    };
    let changes: Option<&Vec<ParameterValue>> = match &request.driver_parameters {
        Some(c) => Some(c),
        None => None,
    };
    let driver_parameters = merge_parameter_changes(saved, changes);
    let checks = check_driver_parameters(source, &driver_parameters);
    Ok(PreparedSelection { source: i, choice, output_frames_per_second_bits, driver_parameters, checks })
}

/// The choice that a prepared selection saves and the node takes on: the source (a
/// snapshot of it as refreshed), both profile keys, the output rate (`maximum_bits`, the
/// bits of the maximum rate, when none was resolved) and the driver parameters.
pub open spec fn completed(
    source: CameraSource,
    prepared: PreparedSelection,
    maximum_bits: u64,
    chosen: ChosenSelection,
    saved: SavedProfiles,
) -> bool {
    let color_key = source.profiles@[prepared.choice.color as int].key@;
    let depth_key = source.profiles@[prepared.choice.depth as int].key@;
    let rate = match prepared.output_frames_per_second_bits {
        Some(b) => b,
        None => maximum_bits,
    };
    &&& chosen.source_id@ == source.source_id@
    &&& chosen.color_profile_key@ == color_key
    &&& chosen.depth_profile_key@ == depth_key
    &&& chosen.maximum_frames_per_second == prepared.choice.maximum_frames_per_second
    &&& chosen.output_frames_per_second_bits == rate
    &&& values_view(chosen.driver_parameters@) == values_view(prepared.driver_parameters@)
    &&& saved.color_profile_key@ == color_key
    &&& saved.depth_profile_key@ == depth_key
    &&& saved.output_frames_per_second_bits == Some(rate)
    &&& values_view(saved.driver_parameters@) == values_view(prepared.driver_parameters@)
    &&& saved.source_snapshot matches Some(snapshot) && source_view(snapshot) == source_view(source)
}

fn copy_values(values: &Vec<ParameterValue>) -> (res: Vec<ParameterValue>)
    ensures
        values_view(res@) == values_view(values@),
{
    let mut res: Vec<ParameterValue> = Vec::new();
    let mut i: usize = 0;
    while i < values.len()
        invariant
            i <= values@.len(),
            values_view(res@) == values_view(values@).take(i as int),
        decreases values@.len() - i,
    {
        let v = &values[i];
        let ghost before = values_view(res@);
        res.push(ParameterValue { namespace: v.namespace.clone(), key: v.key.clone(), value_bits: v.value_bits });
        assert(values_view(res@) =~= before.push(values_view(values@)[i as int]));
        assert(values_view(values@).take(i as int + 1) =~= values_view(values@).take(i as int).push(values_view(values@)[i as int]));
        i += 1;
    }
    assert(values_view(values@).take(values@.len() as int) =~= values_view(values@));
    res
}

/// Finishes a prepared selection with the caller's checks on floating-point values:
/// `rate_ok` whether the resolved output rate is above 0 and at most the maximum, and
/// `in_range[k]` whether the k-th driver parameter lies within the bounds its driver
/// reports. A bad rate refuses the selection first, then the first parameter that is
/// repeated, unreported, read-only or out of range; otherwise it gives the selection
/// the node takes on and the choice it saves.
pub fn complete_selection(
    source: &CameraSource,
    prepared: PreparedSelection,
    rate_ok: bool,
    maximum_bits: u64,
    in_range: &Vec<bool>,
) -> (res: Result<(ChosenSelection, SavedProfiles), CheckRefusal>)
    requires
        prepared.choice.color < source.profiles@.len(),
        prepared.choice.depth < source.profiles@.len(),
        prepared.checks@.len() == in_range@.len(),
    ensures
        !rate_ok ==> res matches Err(CheckRefusal::OutputRate),
        rate_ok ==> match res {
            Err(CheckRefusal::Parameter(k)) => k < in_range@.len() && !((prepared.checks@[k as int] is Adjustable)
                && in_range@[k as int]) && forall|j: int|
                0 <= j < k ==> ((#[trigger] prepared.checks@[j]) is Adjustable) && in_range@[j],
            Err(CheckRefusal::OutputRate) => false,
            Ok((chosen, saved)) => (forall|j: int|
                0 <= j < in_range@.len() ==> ((#[trigger] prepared.checks@[j]) is Adjustable) && in_range@[j])
                && completed(*source, prepared, maximum_bits, chosen, saved),
        },
{
    if !rate_ok {
        return Err(CheckRefusal::OutputRate);
    }
    match first_parameter_error(&prepared.checks, in_range) {
        Some(k) => {
            return Err(CheckRefusal::Parameter(k));
        },
        None => {},
    }
    let rate = match prepared.output_frames_per_second_bits {
        Some(b) => b,
        None => maximum_bits,
    };
    let color_key = source.profiles[prepared.choice.color].key.clone();
    let depth_key = source.profiles[prepared.choice.depth].key.clone();
    let saved = SavedProfiles {
        color_profile_key: color_key.clone(),
        depth_profile_key: depth_key.clone(),
        output_frames_per_second_bits: Some(rate),
        driver_parameters: copy_values(&prepared.driver_parameters),
        source_snapshot: Some(copy_source(source)),
    };
    let chosen = ChosenSelection::from_choice(source, &prepared.choice, rate, prepared.driver_parameters);
    Ok((chosen, saved))
}

/// Takes on a completed selection once its choice is written out: the choice is saved
/// under the source's id (the configuration's version counts the change), and the node
/// holds the selection with its stream dropped and its statistics started over.
pub fn commit_selection<R>(
    config: &mut CameraConfig<R>,
    state: &mut StreamState,
    selection: &mut Selection,
    chosen: ChosenSelection,
    saved: SavedProfiles,
)
    requires
        old(config).wf(),
        old(config).config_version < u64::MAX,
    ensures
        final(config).wf(),
        final(config).profiles@ == old(config).profiles@.insert(chosen.source_id@, saved),
        final(config).cameras@ == old(config).cameras@,
        final(config).config_version == old(config).config_version + 1,
        selection_taken(*final(state), *final(selection), chosen),
{
    config.save_choice(chosen.source_id.clone(), saved);
    let _taken = state.conclude_selection(selection, Ok(chosen));
}

} // verus!
