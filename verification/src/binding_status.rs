//! The controller-input node's report of each action's binding: which source and
//! components it is bound to, whether that source is sending samples, and whether its
//! latest sample holds every bound component.
use vstd::prelude::*;
use crate::controller_input::{ActionBinding, ActionType};
use crate::keyed_list::KeyedList;
use crate::segmentation::texts;
use crate::text::str_eq;

verus! {

/// The actions the node offers, with their types, in the order it reports them.
pub open spec fn declared_actions_spec() -> Seq<(&'static str, ActionType)> {
    seq![
        ("start_stop", ActionType::Boolean),
        ("emergency_stop", ActionType::Boolean),
        ("primary_tool_open", ActionType::Boolean),
        ("primary_tool", ActionType::Float),
        ("move_forward_back", ActionType::Float),
        ("move_left_right", ActionType::Float),
        ("move_up_down", ActionType::Float),
        ("front_pitch", ActionType::Float),
        ("horizontal_arc", ActionType::Float),
    ]
}

/// The actions the node offers, with their types.
pub fn declared_actions() -> (res: Vec<(&'static str, ActionType)>)
    ensures
        res@ == declared_actions_spec(),
{
    let res = vec![
        ("start_stop", ActionType::Boolean),
        ("emergency_stop", ActionType::Boolean),
        ("primary_tool_open", ActionType::Boolean),
        ("primary_tool", ActionType::Float),
        ("move_forward_back", ActionType::Float),
        ("move_left_right", ActionType::Float),
        ("move_up_down", ActionType::Float),
        ("front_pitch", ActionType::Float),
        ("horizontal_arc", ActionType::Float),
    ];
    assert(res@ =~= declared_actions_spec());
    res
}

/// The position of the first binding of the action.
pub open spec fn first_binding(bindings: Seq<ActionBinding>, action: Seq<char>) -> Option<int> {
    if exists|j: int| 0 <= j < bindings.len() && #[trigger] bindings[j].action@ == action {
        Some(choose|j: int| 0 <= j < bindings.len() && bindings[j].action@ == action && forall|k: int| 0 <= k < j ==> #[trigger] bindings[k].action@ != action)
    } else {
        None
    }
}

/// How an action's binding stands: the bound source, inversion and components; whether
/// the source has a sample (`active`) and whether that sample holds every bound
/// component (`applicable`). The live value is read from the floating-point sample apart.
pub struct BindingStatus {
    pub source_id: Option<String>,
    pub invert: bool,
    pub configured_components: Vec<String>,
    pub active: bool,
    pub applicable: bool,
}

/// `st` is the status of the binding `b` (none: `None`) given the components of each
/// source's latest sample.
pub open spec fn status_of(st: BindingStatus, b: Option<ActionBinding>, samples: Map<Seq<char>, Vec<String>>) -> bool {
    match b {
        None => st.source_id is None && !st.invert && st.configured_components@.len() == 0 && !st.active && !st.applicable,
        Some(b) => {
            &&& st.source_id matches Some(id) && id@ == b.source_id@
            &&& st.invert == b.invert
            &&& texts(st.configured_components@) == texts(b.component_paths@)
            &&& st.active == samples.dom().contains(b.source_id@)
            &&& st.applicable == (samples.dom().contains(b.source_id@) && forall|i: int|
                0 <= i < b.component_paths@.len() ==> texts(samples[b.source_id@]@).contains(
                    #[trigger] b.component_paths@[i]@,
                ))
        },
    }
}

fn copy_names(v: &Vec<String>) -> (res: Vec<String>)
    ensures
        texts(res@) == texts(v@),
{
    let mut res: Vec<String> = Vec::new();
    let mut i: usize = 0;
    while i < v.len()
        invariant
            i <= v@.len(),
            texts(res@) == texts(v@).take(i as int),
        decreases v@.len() - i,
    {
        let ghost before = texts(res@);
        res.push(v[i].clone());
        assert(texts(res@) =~= before.push(v@[i as int]@));
        assert(texts(v@).take(i as int + 1) =~= texts(v@).take(i as int).push(v@[i as int]@));
        i += 1;
    }
    assert(texts(v@).take(v@.len() as int) =~= texts(v@));
    res
}

fn holds_name(names: &Vec<String>, name: &str) -> (res: bool)
    ensures
        res == texts(names@).contains(name@),
{
    let mut i: usize = 0;
    while i < names.len()
        invariant
            i <= names@.len(),
            forall|t: int| 0 <= t < i ==> names@[t]@ != name@,
        decreases names@.len() - i,
    {
        if str_eq(names[i].as_str(), name) {
            assert(texts(names@)[i as int] == name@);
            return true;
        }
        i += 1;
    }
    assert forall|t: int| 0 <= t < texts(names@).len() implies #[trigger] texts(names@)[t]
        != name@ by {
        assert(names@[t]@ != name@);
    }
    false
}

fn first_binding_index(bindings: &Vec<ActionBinding>, action: &str) -> (res: Option<usize>)
    ensures
        match res {
            Some(j) => j < bindings@.len() && bindings@[j as int].action@ == action@ && forall|k: int|
                0 <= k < j ==> #[trigger] bindings@[k].action@ != action@,
            None => first_binding(bindings@, action@) is None,
        },
{
    let mut j: usize = 0;
    while j < bindings.len()
        invariant
            j <= bindings@.len(),
            forall|k: int| 0 <= k < j ==> #[trigger] bindings@[k].action@ != action@,
        decreases bindings@.len() - j,
    {
        if str_eq(bindings[j].action.as_str(), action) {
            return Some(j);
        }
        j += 1;
    }
    None
}

/// The status of an action's first binding, given the components of each source's latest
/// sample.
pub fn binding_status(bindings: &Vec<ActionBinding>, action: &str, samples: &KeyedList<Vec<String>>) -> (res: BindingStatus)
    requires
        samples.wf(),
    ensures
        status_of(
            res,
            match first_binding(bindings@, action@) {
                Some(j) => Some(bindings@[j]),
                None => None,
            },
            samples@,
        ),
{
    let j = match first_binding_index(bindings, action) {
        None => {
            return BindingStatus { source_id: None, invert: false, configured_components: Vec::new(), active: false, applicable: false };
        },
        Some(j) => j,
    };
    let b = &bindings[j];
    proof {
        let c = choose|t: int| 0 <= t < bindings@.len() && bindings@[t].action@ == action@ && forall|k: int| 0 <= k < t ==> #[trigger] bindings@[k].action@ != action@;
        if c < j {
            assert(bindings@[c].action@ != action@);
        } else if c > j {
            assert(bindings@[j as int].action@ != action@);
        }
        assert(first_binding(bindings@, action@) == Some(j as int));
    }
    let components = copy_names(&b.component_paths);
    let (active, applicable) = match samples.get(b.source_id.as_str()) {
        None => (false, false),
        Some(present) => {
            let mut all = true;
            let mut i: usize = 0;
            while i < b.component_paths.len()
                invariant
                    i <= b.component_paths@.len(),
                    all == forall|t: int| 0 <= t < i ==> texts(present@).contains(#[trigger] b.component_paths@[t]@),
                decreases b.component_paths@.len() - i,
            {
                let here = holds_name(present, b.component_paths[i].as_str());
                all = all && here;
                i += 1;
            }
            (true, all)
        },
    };
    BindingStatus { source_id: Some(b.source_id.clone()), invert: b.invert, configured_components: components, active, applicable }
}

/// The binding status of every declared action, in the declared order.
pub fn binding_states(bindings: &Vec<ActionBinding>, samples: &KeyedList<Vec<String>>) -> (res: Vec<(&'static str, ActionType, BindingStatus)>)
    requires
        samples.wf(),
    ensures
        res@.len() == declared_actions_spec().len(),
        forall|i: int|
            0 <= i < res@.len() ==> (#[trigger] res@[i]).0 == declared_actions_spec()[i].0 && res@[i].1
                == declared_actions_spec()[i].1 && status_of(
                res@[i].2,
                match first_binding(bindings@, declared_actions_spec()[i].0@) {
                    Some(j) => Some(bindings@[j]),
                    None => None,
                },
                samples@,
            ),
{
    let actions = declared_actions();
    let mut res: Vec<(&'static str, ActionType, BindingStatus)> = Vec::new();
    let mut i: usize = 0;
    while i < actions.len()
        invariant
            samples.wf(),
            actions@ == declared_actions_spec(),
            i <= actions@.len(),
            res@.len() == i,
            forall|t: int|
                0 <= t < i ==> (#[trigger] res@[t]).0 == declared_actions_spec()[t].0 && res@[t].1
                    == declared_actions_spec()[t].1 && status_of(
                    res@[t].2,
                    match first_binding(bindings@, declared_actions_spec()[t].0@) {
                        Some(j) => Some(bindings@[j]),
                        None => None,
                    },
                    samples@,
                ),
        decreases actions@.len() - i,
    {
        let (name, kind) = actions[i];
        let status = binding_status(bindings, name, samples);
        res.push((name, kind, status));
        i += 1;
    }
    res
}

} // verus!
