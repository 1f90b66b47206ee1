//! The controller-input node's registry of discovered input sources, keyed by source id:
//! what a driver's report of its sources does to it, which feedback bindings can be
//! served, and where an action's feedback is sent.
use vstd::prelude::*;
use crate::controller_input::{
    is_virtual_feedback, virtual_feedback_capability, virtual_feedback_source, FeedbackBinding, FeedbackCapability, ListedSource,
    PoseSourceSelection,
};
use crate::keyed_list::KeyedList;
use crate::text::{owned, str_eq};

verus! {

/// A listed source as plain values: source, driver and device ids, whether it provides
/// position and orientation, and whether it is active.
pub type SourceView = (Seq<char>, Seq<char>, Seq<char>, bool, bool, bool);

pub open spec fn source_view(s: ListedSource) -> SourceView {
    (s.source_id@, s.driver_id@, s.device_id@, s.position_capable, s.orientation_capable, s.active)
}

/// The registry as a map from source id to the source's plain values.
pub open spec fn registry_view(m: Map<Seq<char>, ListedSource>) -> Map<Seq<char>, SourceView> {
    m.map_values(|s: ListedSource| source_view(s))
}

/// The ids of the registry's sources that belong to a driver.
pub open spec fn driver_keys(m: Map<Seq<char>, SourceView>, driver_id: Seq<char>) -> Set<Seq<char>> {
    Set::new(|k: Seq<char>| m.dom().contains(k) && m[k].1 == driver_id)
}

/// The registry with the sources inserted in order, each under its own id (a later
/// source with the same id replaces an earlier one).
pub open spec fn insert_all(m: Map<Seq<char>, SourceView>, s: Seq<SourceView>) -> Map<Seq<char>, SourceView>
    decreases s.len(),
{
    if s.len() == 0 {
        m
    } else {
        insert_all(m, s.drop_last()).insert(s.last().0, s.last())
    }
}

/// A driver's report of its sources: the sources it listed before are dropped, and the
/// reported ones are listed.
pub open spec fn replaced(m: Map<Seq<char>, SourceView>, driver_id: Seq<char>, reported: Seq<SourceView>) -> Map<
    Seq<char>,
    SourceView,
> {
    insert_all(m.remove_keys(driver_keys(m, driver_id)), reported)
}

/// The ids among the first `r` strings.
pub open spec fn first_ids(ids: Seq<String>, r: int) -> Set<Seq<char>> {
    Set::new(|k: Seq<char>| exists|t: int| 0 <= t < r && #[trigger] ids[t]@ == k)
}

fn copy_listed(s: &ListedSource) -> (res: ListedSource)
    ensures
        source_view(res) == source_view(*s),
{
    ListedSource {
        source_id: s.source_id.clone(),
        driver_id: s.driver_id.clone(),
        device_id: s.device_id.clone(),
        position_capable: s.position_capable,
        orientation_capable: s.orientation_capable,
        active: s.active,
    }
}

proof fn lemma_insert_view(m: Map<Seq<char>, ListedSource>, k: Seq<char>, s: ListedSource)
    ensures
        registry_view(m.insert(k, s)) == registry_view(m).insert(k, source_view(s)),
{
    assert(registry_view(m.insert(k, s)) =~= registry_view(m).insert(k, source_view(s)));
}

proof fn lemma_remove_view(m: Map<Seq<char>, ListedSource>, k: Seq<char>)
    ensures
        registry_view(m.remove(k)) == registry_view(m).remove(k),
{
    assert(registry_view(m.remove(k)) =~= registry_view(m).remove(k));
}

/// Applies a driver's report of its sources to the registry: every source that the
/// registry held for the driver leaves it, and the reported sources are listed under
/// their ids, in the order reported.
pub fn replace_driver_sources(sources: &mut KeyedList<ListedSource>, driver_id: &str, reported: &Vec<ListedSource>)
    requires
        old(sources).wf(),
    ensures
        final(sources).wf(),
        registry_view(final(sources)@) == replaced(
            registry_view(old(sources)@),
            driver_id@,
            reported@.map_values(|s: ListedSource| source_view(s)),
        ),
{
    let ghost m0 = registry_view(sources@);
    let ghost gone = driver_keys(m0, driver_id@);
    // The ids of the driver's sources.
    let mut stale: Vec<String> = Vec::new();
    let mut i: usize = 0;
    let n = sources.len();
    proof {
        sources.lemma_order();
    }
    while i < n
        invariant
            sources.wf(),
            n == sources.key_order().len(),
            m0 == registry_view(sources@),
            gone == driver_keys(m0, driver_id@),
            i <= n,
            forall|j: int| 0 <= j < stale@.len() ==> gone.contains(#[trigger] stale@[j]@),
            forall|j: int|
                0 <= j < i && gone.contains(#[trigger] sources.key_order()[j]) ==> exists|t: int|
                    0 <= t < stale@.len() && stale@[t]@ == sources.key_order()[j],
            forall|j: int|
                0 <= j < sources.key_order().len() ==> #[trigger] sources@.dom().contains(sources.key_order()[j])
                    && sources@[sources.key_order()[j]] == sources.value_order()[j],
            forall|k: Seq<char>| #[trigger] sources@.dom().contains(k) ==> sources.key_order().contains(k),
        decreases n - i,
    {
        let (key, value) = sources.entry(i);
        if str_eq(value.driver_id.as_str(), driver_id) {
            let ghost before = stale@;
            stale.push(key.clone());
            assert forall|j: int|
                0 <= j < i + 1 && gone.contains(#[trigger] sources.key_order()[j]) implies exists|t: int|
                0 <= t < stale@.len() && stale@[t]@ == sources.key_order()[j] by {
                if j < i {
                    let t = choose|t: int| 0 <= t < before.len() && before[t]@ == sources.key_order()[j];
                    assert(stale@[t] == before[t]);
                } else {
                    assert(stale@[before.len() as int]@ == sources.key_order()[j]);
                }
            }
        } else {
            assert forall|j: int|
                0 <= j < i + 1 && gone.contains(#[trigger] sources.key_order()[j]) implies exists|t: int|
                0 <= t < stale@.len() && stale@[t]@ == sources.key_order()[j] by {
                if j == i {
                    let k = sources.key_order()[j];
                    assert(m0[k].1 == sources@[k].driver_id@);
                }
            }
        }
        i += 1;
    }
    let ghost stale_set = Set::new(|k: Seq<char>| exists|t: int| 0 <= t < stale@.len() && #[trigger] stale@[t]@ == k);
    assert(stale_set =~= gone) by {
        assert forall|k: Seq<char>| gone.contains(k) implies stale_set.contains(k) by {
            let j = choose|j: int| 0 <= j < sources.key_order().len() && sources.key_order()[j] == k;
        }
    }
    // Drop them.
    let mut r: usize = 0;
    while r < stale.len()
        invariant
            sources.wf(),
            r <= stale@.len(),
            registry_view(sources@) == m0.remove_keys(first_ids(stale@, r as int)),
        decreases stale@.len() - r,
    {
        let ghost before = sources@;
        sources.remove(stale[r].as_str());
        proof {
            lemma_remove_view(before, stale@[r as int]@);
            assert(m0.remove_keys(first_ids(stale@, r as int)).remove(stale@[r as int]@) =~= m0.remove_keys(
                first_ids(stale@, r + 1),
            )) by {
                assert forall|k: Seq<char>| #[trigger] first_ids(stale@, r + 1).contains(k) implies first_ids(
                    stale@,
                    r as int,
                ).contains(k) || k == stale@[r as int]@ by {
                    let t = choose|t: int| 0 <= t < r + 1 && #[trigger] stale@[t]@ == k;
                    if t < r {
                        assert(stale@[t]@ == k);
                    }
                }
                assert forall|k: Seq<char>| #[trigger] first_ids(stale@, r as int).contains(k) implies first_ids(
                    stale@,
                    r + 1,
                ).contains(k) by {
                    let t = choose|t: int| 0 <= t < r && #[trigger] stale@[t]@ == k;
                    assert(stale@[t]@ == k);
                }
                assert(first_ids(stale@, r + 1).contains(stale@[r as int]@));
            }
        }
        r += 1;
    }
    assert(registry_view(sources@) == m0.remove_keys(first_ids(stale@, stale@.len() as int)));
    assert(first_ids(stale@, stale@.len() as int) =~= stale_set);
    let ghost base = registry_view(sources@);
    let ghost rep = reported@.map_values(|s: ListedSource| source_view(s));
    // List the reported sources.
    let mut a: usize = 0;
    while a < reported.len()
        invariant
            sources.wf(),
            a <= reported@.len(),
            rep == reported@.map_values(|s: ListedSource| source_view(s)),
            registry_view(sources@) == insert_all(base, rep.take(a as int)),
        decreases reported@.len() - a,
    {
        let ghost before = sources@;
        let s = copy_listed(&reported[a]);
        let key = reported[a].source_id.clone();
        sources.insert(key, s);
        proof {
            lemma_insert_view(before, reported@[a as int].source_id@, s);
            assert(rep.take(a as int + 1).drop_last() =~= rep.take(a as int));
        }
        a += 1;
    }
    assert(rep.take(reported@.len() as int) =~= rep);
}

#[verifier::spinoff_prover]
proof fn lemma_insert_all(m: Map<Seq<char>, SourceView>, s: Seq<SourceView>, k: Seq<char>)
    ensures
        insert_all(m, s).dom().contains(k) <==> (m.dom().contains(k) || exists|i: int| 0 <= i < s.len() && #[trigger] s[i].0 == k),
        (forall|i: int| 0 <= i < s.len() ==> #[trigger] s[i].0 != k) ==> insert_all(m, s)[k] == m[k],
        forall|i: int|
            0 <= i < s.len() && #[trigger] s[i].0 == k && (forall|j: int| i < j < s.len() ==> s[j].0 != k) ==> insert_all(m, s)[k] == s[i],
    decreases s.len(),
{
    if s.len() > 0 {
        let p = s.drop_last();
        lemma_insert_all(m, p, k);
        if s.last().0 != k {
            assert forall|i: int| 0 <= i < p.len() && #[trigger] p[i].0 == k implies s[i].0 == k by {}
            assert((exists|i: int| 0 <= i < s.len() && #[trigger] s[i].0 == k) ==> exists|i: int| 0 <= i < p.len() && #[trigger] p[i].0 == k) by {
                if exists|i: int| 0 <= i < s.len() && #[trigger] s[i].0 == k {
                    let i = choose|i: int| 0 <= i < s.len() && #[trigger] s[i].0 == k;
                    assert(p[i].0 == k);
                }
            }
            assert forall|i: int|
                0 <= i < s.len() && #[trigger] s[i].0 == k && (forall|j: int| i < j < s.len() ==> s[j].0 != k) implies insert_all(m, s)[k] == s[i] by {
                assert(p[i].0 == k);
                assert forall|j: int| i < j < p.len() implies p[j].0 != k by {
                    assert(s[j].0 != k);
                }
            }
            assert((forall|i: int| 0 <= i < s.len() ==> #[trigger] s[i].0 != k) ==> forall|i: int| 0 <= i < p.len() ==> #[trigger] p[i].0 != k) by {
                if forall|i: int| 0 <= i < s.len() ==> #[trigger] s[i].0 != k {
                    assert forall|i: int| 0 <= i < p.len() implies #[trigger] p[i].0 != k by {
                        assert(s[i].0 != k);
                    }
                }
            }
        } else {
            assert(s[s.len() - 1].0 == k);
            assert forall|i: int|
                0 <= i < s.len() && #[trigger] s[i].0 == k && (forall|j: int| i < j < s.len() ==> s[j].0 != k) implies insert_all(m, s)[k] == s[i] by {
                if i < s.len() - 1 {
                    assert(s[s.len() - 1].0 != k);
                }
            }
        }
    }
}

/// A driver's report leaves the sources of the other drivers as they were, unless the
/// report lists a source under the same id.
pub proof fn other_drivers_keep_their_sources(
    m: Map<Seq<char>, SourceView>,
    driver_id: Seq<char>,
    reported: Seq<SourceView>,
    k: Seq<char>,
)
    requires
        m.dom().contains(k),
        m[k].1 != driver_id,
        forall|i: int| 0 <= i < reported.len() ==> #[trigger] reported[i].0 != k,
    ensures
        replaced(m, driver_id, reported).dom().contains(k),
        replaced(m, driver_id, reported)[k] == m[k],
{
    lemma_insert_all(m.remove_keys(driver_keys(m, driver_id)), reported, k);
}

/// A source that a driver no longer reports leaves the registry.
pub proof fn unreported_sources_of_the_driver_leave(
    m: Map<Seq<char>, SourceView>,
    driver_id: Seq<char>,
    reported: Seq<SourceView>,
    k: Seq<char>,
)
    requires
        m.dom().contains(k),
        m[k].1 == driver_id,
        forall|i: int| 0 <= i < reported.len() ==> #[trigger] reported[i].0 != k,
    ensures
        !replaced(m, driver_id, reported).dom().contains(k),
{
    lemma_insert_all(m.remove_keys(driver_keys(m, driver_id)), reported, k);
}

/// Every reported source is listed under its id, as the last report of that id gave it.
pub proof fn reported_sources_are_listed(m: Map<Seq<char>, SourceView>, driver_id: Seq<char>, reported: Seq<SourceView>, i: int)
    requires
        0 <= i < reported.len(),
        forall|j: int| i < j < reported.len() ==> #[trigger] reported[j].0 != reported[i].0,
    ensures
        replaced(m, driver_id, reported).dom().contains(reported[i].0),
        replaced(m, driver_id, reported)[reported[i].0] == reported[i],
{
    lemma_insert_all(m.remove_keys(driver_keys(m, driver_id)), reported, reported[i].0);
}

/// Nothing but the registry's sources and the reported ones is listed afterwards.
pub proof fn only_known_sources_are_listed(m: Map<Seq<char>, SourceView>, driver_id: Seq<char>, reported: Seq<SourceView>, k: Seq<char>)
    requires
        replaced(m, driver_id, reported).dom().contains(k),
    ensures
        m.dom().contains(k) || exists|i: int| 0 <= i < reported.len() && #[trigger] reported[i].0 == k,
{
    lemma_insert_all(m.remove_keys(driver_keys(m, driver_id)), reported, k);
}

// ---------------------------------------------------------------------------------------
// Feedback
// ---------------------------------------------------------------------------------------

/// Whether a feedback binding targets the built-in virtual feedback.
pub open spec fn targets_virtual(b: FeedbackBinding) -> bool {
    b.source_id@ == virtual_feedback_source() && b.capability_path@ == virtual_feedback_capability()
}

/// Whether a source that offers the outputs `offered` (`None`: the source is not listed)
/// can serve the binding.
pub open spec fn feedback_served(b: FeedbackBinding, offered: Option<Seq<FeedbackCapability>>) -> bool {
    targets_virtual(b) || match offered {
        Some(c) => exists|i: int| 0 <= i < c.len() && #[trigger] c[i].path@ == b.capability_path@,
        None => false,
    }
}

/// Whether a feedback binding is applicable: the virtual target always is; another needs
/// its source listed with an output at the binding's capability path.
pub fn feedback_applicable(binding: &FeedbackBinding, offered: Option<&Vec<FeedbackCapability>>) -> (res: bool)
    ensures
        res == feedback_served(
            *binding,
            match offered {
                Some(c) => Some(c@),
                None => None,
            },
        ),
{
    if is_virtual_feedback(binding) {
        return true;
    }
    match offered {
        None => false,
        Some(caps) => {
            let mut i: usize = 0;
            while i < caps.len()
                invariant
                    offered == Some(caps),
                    !targets_virtual(*binding),
                    i <= caps@.len(),
                    forall|j: int| 0 <= j < i ==> #[trigger] caps@[j].path@ != binding.capability_path@,
                decreases caps@.len() - i,
            {
                if str_eq(caps[i].path.as_str(), binding.capability_path.as_str()) {
                    assert(caps@[i as int].path@ == binding.capability_path@);
                    return true;
                }
                i += 1;
            }
            false
        },
    }
}

/// Whether some binding of the action targets the virtual feedback.
pub open spec fn has_virtual_binding(bindings: Seq<FeedbackBinding>, action: Seq<char>) -> bool {
    exists|i: int| 0 <= i < bindings.len() && #[trigger] bindings[i].action@ == action && targets_virtual(bindings[i])
}

/// Whether an action's feedback is kept as the virtual feedback: some binding of the
/// action targets it. A configuration without such a binding drops the kept feedback.
pub fn keeps_virtual_feedback(bindings: &Vec<FeedbackBinding>, action: &str) -> (res: bool)
    ensures
        res == has_virtual_binding(bindings@, action@),
{
    let mut i: usize = 0;
    while i < bindings.len()
        invariant
            i <= bindings@.len(),
            forall|j: int| 0 <= j < i ==> !(#[trigger] bindings@[j].action@ == action@ && targets_virtual(bindings@[j])),
        decreases bindings@.len() - i,
    {
        if str_eq(bindings[i].action.as_str(), action) && is_virtual_feedback(&bindings[i]) {
            return true;
        }
        i += 1;
    }
    false
}

/// Whether any binding targets the virtual feedback.
pub fn any_virtual_feedback(bindings: &Vec<FeedbackBinding>) -> (res: bool)
    ensures
        res == exists|i: int| 0 <= i < bindings@.len() && #[trigger] targets_virtual(bindings@[i]),
{
    let mut i: usize = 0;
    while i < bindings.len()
        invariant
            i <= bindings@.len(),
            forall|j: int| 0 <= j < i ==> !#[trigger] targets_virtual(bindings@[j]),
        decreases bindings@.len() - i,
    {
        if is_virtual_feedback(&bindings[i]) {
            assert(targets_virtual(bindings@[i as int]));
            return true;
        }
        i += 1;
    }
    false
}

/// A device output that an action's feedback drives: source id and capability path.
pub open spec fn device_targets(bindings: Seq<FeedbackBinding>, action: Seq<char>) -> Seq<(Seq<char>, Seq<char>)>
    decreases bindings.len(),
{
    if bindings.len() == 0 {
        seq![]
    } else {
        let b = bindings.last();
        let rest = device_targets(bindings.drop_last(), action);
        if b.action@ == action && !targets_virtual(b) {
            rest.push((b.source_id@, b.capability_path@))
        } else {
            rest
        }
    }
}

/// The device outputs an action's feedback is sent to: those of its bindings that do not
/// target the virtual feedback, in binding order.
pub fn haptic_targets(bindings: &Vec<FeedbackBinding>, action: &str) -> (res: Vec<(String, String)>)
    ensures
        res@.map_values(|t: (String, String)| (t.0@, t.1@)) == device_targets(bindings@, action@),
{
    let mut res: Vec<(String, String)> = Vec::new();
    let mut i: usize = 0;
    while i < bindings.len()
        invariant
            i <= bindings@.len(),
            res@.map_values(|t: (String, String)| (t.0@, t.1@)) == device_targets(bindings@.take(i as int), action@),
        decreases bindings@.len() - i,
    {
        let b = &bindings[i];
        let ghost before = res@.map_values(|t: (String, String)| (t.0@, t.1@));
        proof {
            assert(bindings@.take(i as int + 1).drop_last() =~= bindings@.take(i as int));
        }
        if str_eq(b.action.as_str(), action) && !is_virtual_feedback(b) {
            res.push((b.source_id.clone(), b.capability_path.clone()));
            assert(res@.map_values(|t: (String, String)| (t.0@, t.1@)) =~= before.push((b.source_id@, b.capability_path@)));
        }
        i += 1;
    }
    assert(bindings@.take(bindings@.len() as int) =~= bindings@);
    res
}

// ---------------------------------------------------------------------------------------
// Drivers
// ---------------------------------------------------------------------------------------

/// An input driver as the node lists it.
pub struct InputDriver {
    pub driver_id: String,
    pub display_name: String,
    pub version: String,
    pub original_error: Option<String>,
}

/// A driver as plain values: id, display name, version, error.
pub type DriverView = (Seq<char>, Seq<char>, Seq<char>, Option<Seq<char>>);

pub open spec fn driver_view(d: InputDriver) -> DriverView {
    (
        d.driver_id@,
        d.display_name@,
        d.version@,
        match d.original_error {
            Some(e) => Some(e@),
            None => None,
        },
    )
}

pub open spec fn drivers_view(m: Map<Seq<char>, InputDriver>) -> Map<Seq<char>, DriverView> {
    m.map_values(|d: InputDriver| driver_view(d))
}

/// The drivers after a driver reported an error: a listed driver keeps its entry with the
/// error set; an unlisted one is listed as "Input driver" of the node's version.
pub open spec fn error_recorded(
    m: Map<Seq<char>, DriverView>,
    driver_id: Seq<char>,
    message: Seq<char>,
    version: Seq<char>,
) -> Map<Seq<char>, DriverView> {
    if m.dom().contains(driver_id) {
        let d = m[driver_id];
        m.insert(driver_id, (d.0, d.1, d.2, Some(message)))
    } else {
        m.insert(driver_id, (driver_id, "Input driver"@, version, Some(message)))
    }
}

/// Records a driver's error report in the driver list.
pub fn record_driver_error(drivers: &mut KeyedList<InputDriver>, driver_id: &str, message: &str, version: &str)
    requires
        old(drivers).wf(),
    ensures
        final(drivers).wf(),
        drivers_view(final(drivers)@) == error_recorded(drivers_view(old(drivers)@), driver_id@, message@, version@),
{
    let ghost before = drivers@;
    let updated = match drivers.get(driver_id) {
        Some(d) => InputDriver {
            driver_id: d.driver_id.clone(),
            display_name: d.display_name.clone(),
            version: d.version.clone(),
            original_error: Some(owned(message)),
        },
        None => InputDriver {
            driver_id: owned(driver_id),
            display_name: owned("Input driver"),
            version: owned(version),
            original_error: Some(owned(message)),
        },
    };
    drivers.insert(owned(driver_id), updated);
    proof {
        assert(drivers_view(drivers@) =~= error_recorded(drivers_view(before), driver_id@, message@, version@));
    }
}

// ---------------------------------------------------------------------------------------
// Selected pose sources
// ---------------------------------------------------------------------------------------

/// Whether a selected pose source is live: its source is listed, active, and of the
/// selected driver and device.
pub open spec fn selection_live(sel: PoseSourceSelection, m: Map<Seq<char>, SourceView>) -> bool {
    m.dom().contains(sel.source_id@) && m[sel.source_id@].5 && m[sel.source_id@].1 == sel.driver_id@
        && m[sel.source_id@].2 == sel.device_id@
}

/// Whether the selected pose source is live in the registry.
pub fn selection_active(selection: &PoseSourceSelection, sources: &KeyedList<ListedSource>) -> (res: bool)
    requires
        sources.wf(),
    ensures
        res == selection_live(*selection, registry_view(sources@)),
{
    match sources.get(selection.source_id.as_str()) {
        Some(s) => s.active && str_eq(s.driver_id.as_str(), selection.driver_id.as_str()) && str_eq(
            s.device_id.as_str(),
            selection.device_id.as_str(),
        ),
        None => false,
    }
}

} // verus!
