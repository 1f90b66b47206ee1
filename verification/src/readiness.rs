//! System readiness: a service is ready when it reports running and every service it
//! depends on is ready, evaluated as the greatest fixpoint over the dependency graph.
use vstd::prelude::*;
use crate::keyed_list::lemma_lt_irreflexive;
use crate::text::seq_lt;

verus! {

/// One configured service and the services it depends on.
pub struct ServiceSpec {
    pub service_id: String,
    pub dependencies: Vec<String>,
}

/// The configuration: every service of the system, by ascending id.
pub struct Config {
    pub services: Vec<ServiceSpec>,
}

/// What a service reports about itself.
pub struct ServiceState {
    pub schema_version: u32,
    pub build_version: String,
    pub config_version: u64,
    pub running: bool,
    pub has_input: bool,
    pub has_output: bool,
    pub last_error: Option<String>,
    pub updated_at_ns: i64,
}

/// The latest state that the service with this id reported.
pub struct ServiceReport {
    pub service_id: String,
    pub state: ServiceState,
}

/// Readiness of one service, with the state it last reported.
pub struct ServiceReadiness {
    pub service_id: String,
    pub reported_ready: bool,
    pub ready: bool,
    pub blocked_by: Vec<String>,
    pub state: Option<ServiceState>,
}

/// Readiness of the whole system.
pub struct SystemReadiness {
    pub schema_version: u32,
    pub ready: bool,
    pub services: Vec<ServiceReadiness>,
    pub updated_at_ns: i64,
}

/// A configuration names a dependency that no service of it declares.
pub enum ConfigError {
    UnknownDependency { service: String, dependency: String },
}

// ---------------------------------------------------------------------------------------
// Model
// ---------------------------------------------------------------------------------------

pub open spec fn ids_unique(services: Seq<ServiceSpec>) -> bool {
    forall|i: int, j: int|
        0 <= i < services.len() && 0 <= j < services.len() && i != j
            ==> services[i].service_id@ != services[j].service_id@
}

/// Service ids strictly ascending.
pub open spec fn ids_ascending(services: Seq<ServiceSpec>) -> bool {
    forall|i: int, j: int|
        0 <= i < j < services.len() ==> seq_lt(
            #[trigger] services[i].service_id@,
            #[trigger] services[j].service_id@,
        )
}

pub open spec fn reports_unique(reports: Seq<ServiceReport>) -> bool {
    forall|i: int, j: int|
        0 <= i < reports.len() && 0 <= j < reports.len() && i != j
            ==> reports[i].service_id@ != reports[j].service_id@
}

pub open spec fn declares(services: Seq<ServiceSpec>, id: Seq<char>) -> bool {
    exists|j: int| 0 <= j < services.len() && services[j].service_id@ == id
}

pub open spec fn dependencies_known(services: Seq<ServiceSpec>) -> bool {
    forall|i: int, k: int|
        0 <= i < services.len() && 0 <= k < services[i].dependencies@.len() ==> declares(
            services,
            #[trigger] services[i].dependencies@[k]@,
        )
}

/// The position of the service with the given id.
pub open spec fn position(services: Seq<ServiceSpec>, id: Seq<char>) -> int {
    choose|j: int| 0 <= j < services.len() && services[j].service_id@ == id
}

/// The dependency graph: `graph[i][k]` is the position of the k-th dependency of service i.
pub open spec fn dependency_graph(services: Seq<ServiceSpec>) -> Seq<Seq<int>> {
    Seq::new(
        services.len(),
        |i: int|
            Seq::new(
                services[i].dependencies@.len(),
                |k: int| position(services, services[i].dependencies@[k]@),
            ),
    )
}

pub open spec fn reported_running(reports: Seq<ServiceReport>, id: Seq<char>) -> bool {
    exists|k: int| 0 <= k < reports.len() && reports[k].service_id@ == id && reports[k].state.running
}

pub open spec fn has_report(reports: Seq<ServiceReport>, id: Seq<char>) -> bool {
    exists|k: int| 0 <= k < reports.len() && reports[k].service_id@ == id
}

/// The state last reported under this id, if any.
pub open spec fn reported_state(reports: Seq<ServiceReport>, id: Seq<char>) -> Option<ServiceState> {
    if has_report(reports, id) {
        Some(reports[choose|k: int| 0 <= k < reports.len() && reports[k].service_id@ == id].state)
    } else {
        None
    }
}

pub open spec fn error_text(e: Option<String>) -> Option<Seq<char>> {
    match e {
        Some(t) => Some(t@),
        None => None,
    }
}

/// Two states that hold the same values.
pub open spec fn same_state(a: ServiceState, b: ServiceState) -> bool {
    &&& a.schema_version == b.schema_version
    &&& a.build_version@ == b.build_version@
    &&& a.config_version == b.config_version
    &&& a.running == b.running
    &&& a.has_input == b.has_input
    &&& a.has_output == b.has_output
    &&& error_text(a.last_error) == error_text(b.last_error)
    &&& a.updated_at_ns == b.updated_at_ns
}

pub open spec fn same_optional_state(a: Option<ServiceState>, b: Option<ServiceState>) -> bool {
    match (a, b) {
        (Some(x), Some(y)) => same_state(x, y),
        (None, None) => true,
        _ => false,
    }
}

/// Which services report themselves running.
pub open spec fn reported_vector(services: Seq<ServiceSpec>, reports: Seq<ServiceReport>) -> Seq<
    bool,
> {
    Seq::new(services.len(), |i: int| reported_running(reports, services[i].service_id@))
}

pub open spec fn graph_within(graph: Seq<Seq<int>>, n: int) -> bool {
    graph.len() == n && forall|i: int, k: int|
        0 <= i < n && 0 <= k < graph[i].len() ==> 0 <= #[trigger] graph[i][k] < n
}

/// One refinement round: a service stays ready when it reports running and all of its
/// dependencies are ready in `ready`.
pub open spec fn step(graph: Seq<Seq<int>>, reported: Seq<bool>, ready: Seq<bool>) -> Seq<bool> {
    Seq::new(
        reported.len(),
        |i: int| reported[i] && forall|k: int| 0 <= k < graph[i].len() ==> ready[#[trigger] graph[i][k]],
    )
}

pub open spec fn below(a: Seq<bool>, b: Seq<bool>) -> bool {
    a.len() == b.len() && forall|i: int| 0 <= i < a.len() && #[trigger] a[i] ==> b[i]
}

/// `ready` is the greatest assignment that is stable under `step`: it is a fixpoint, and
/// every assignment that `step` does not shrink lies below it.
pub open spec fn greatest_fixpoint(graph: Seq<Seq<int>>, reported: Seq<bool>, ready: Seq<bool>) -> bool {
    &&& ready.len() == reported.len()
    &&& step(graph, reported, ready) == ready
    &&& forall|other: Seq<bool>|
        #![trigger step(graph, reported, other)]
        other.len() == reported.len() && below(other, step(graph, reported, other)) ==> below(
            other,
            ready,
        )
}

/// The `ready` flags of a readiness report.
pub open spec fn ready_vector(services: Seq<ServiceReadiness>) -> Seq<bool> {
    Seq::new(services.len(), |i: int| services[i].ready)
}

pub open spec fn names(values: Seq<String>) -> Seq<Seq<char>> {
    values.map_values(|d: String| d@)
}

pub open spec fn iterate(graph: Seq<Seq<int>>, reported: Seq<bool>, rounds: nat) -> Seq<bool>
    decreases rounds,
{
    if rounds == 0 {
        reported
    } else {
        step(graph, reported, iterate(graph, reported, (rounds - 1) as nat))
    }
}

pub open spec fn count_true(s: Seq<bool>) -> nat
    decreases s.len(),
{
    if s.len() == 0 {
        0
    } else {
        count_true(s.drop_last()) + if s.last() {
            1nat
        } else {
            0nat
        }
    }
}

// ---------------------------------------------------------------------------------------
// Lemmas
// ---------------------------------------------------------------------------------------

proof fn lemma_step_monotone(graph: Seq<Seq<int>>, reported: Seq<bool>, a: Seq<bool>, b: Seq<bool>)
    requires
        graph_within(graph, reported.len() as int),
        a.len() == reported.len(),
        below(a, b),
    ensures
        below(step(graph, reported, a), step(graph, reported, b)),
{
    assert forall|i: int|
        0 <= i < reported.len() && #[trigger] step(graph, reported, a)[i] implies step(
        graph,
        reported,
        b,
    )[i] by {
        assert forall|k: int| 0 <= k < graph[i].len() implies b[#[trigger] graph[i][k]] by {
            assert(a[graph[i][k]]);
        }
    }
}

proof fn lemma_step_shrinks(graph: Seq<Seq<int>>, reported: Seq<bool>, a: Seq<bool>)
    requires
        a.len() == reported.len(),
    ensures
        below(step(graph, reported, a), reported),
{
}

proof fn lemma_iterate_len(graph: Seq<Seq<int>>, reported: Seq<bool>, rounds: nat)
    ensures
        iterate(graph, reported, rounds).len() == reported.len(),
    decreases rounds,
{
    if rounds > 0 {
        lemma_iterate_len(graph, reported, (rounds - 1) as nat);
    }
}

proof fn lemma_iterate_decreasing(graph: Seq<Seq<int>>, reported: Seq<bool>, rounds: nat)
    requires
        graph_within(graph, reported.len() as int),
    ensures
        below(iterate(graph, reported, rounds + 1), iterate(graph, reported, rounds)),
    decreases rounds,
{
    lemma_iterate_len(graph, reported, rounds);
    if rounds == 0 {
        lemma_step_shrinks(graph, reported, reported);
    } else {
        let prev = (rounds - 1) as nat;
        lemma_iterate_decreasing(graph, reported, prev);
        lemma_iterate_len(graph, reported, rounds);
        lemma_step_monotone(
            graph,
            reported,
            iterate(graph, reported, rounds),
            iterate(graph, reported, prev),
        );
        assert(iterate(graph, reported, rounds + 1) == step(
            graph,
            reported,
            iterate(graph, reported, rounds),
        ));
    }
}

proof fn lemma_post_fixpoint_below_iterate(
    graph: Seq<Seq<int>>,
    reported: Seq<bool>,
    other: Seq<bool>,
    rounds: nat,
)
    requires
        graph_within(graph, reported.len() as int),
        other.len() == reported.len(),
        below(other, step(graph, reported, other)),
    ensures
        below(other, iterate(graph, reported, rounds)),
    decreases rounds,
{
    lemma_iterate_len(graph, reported, rounds);
    if rounds == 0 {
        lemma_step_shrinks(graph, reported, other);
    } else {
        let prev = (rounds - 1) as nat;
        lemma_post_fixpoint_below_iterate(graph, reported, other, prev);
        lemma_iterate_len(graph, reported, prev);
        lemma_step_monotone(graph, reported, other, iterate(graph, reported, prev));
    }
}

proof fn lemma_count_le_len(s: Seq<bool>)
    ensures
        count_true(s) <= s.len(),
    decreases s.len(),
{
    if s.len() > 0 {
        lemma_count_le_len(s.drop_last());
    }
}

proof fn lemma_count_zero(s: Seq<bool>)
    requires
        count_true(s) == 0,
    ensures
        forall|i: int| 0 <= i < s.len() ==> !s[i],
    decreases s.len(),
{
    if s.len() > 0 {
        lemma_count_zero(s.drop_last());
        assert forall|i: int| 0 <= i < s.len() implies !s[i] by {
            if i < s.len() - 1 {
                assert(s.drop_last()[i] == s[i]);
            }
        }
    }
}

proof fn lemma_count_strict(a: Seq<bool>, b: Seq<bool>)
    requires
        below(a, b),
    ensures
        count_true(a) <= count_true(b),
        a != b ==> count_true(a) < count_true(b),
    decreases a.len(),
{
    if a.len() > 0 {
        let a2 = a.drop_last();
        let b2 = b.drop_last();
        assert(below(a2, b2)) by {
            assert forall|i: int| 0 <= i < a2.len() && #[trigger] a2[i] implies b2[i] by {
                assert(a[i]);
            }
        }
        lemma_count_strict(a2, b2);
        if a != b {
            if a2 == b2 {
                assert(a.last() != b.last()) by {
                    if a.last() == b.last() {
                        assert(a =~= b) by {
                            assert forall|i: int| 0 <= i < a.len() implies a[i] == b[i] by {
                                if i < a.len() - 1 {
                                    assert(a2[i] == b2[i]);
                                }
                            }
                        }
                    }
                }
                assert(!a.last() && b.last()) by {
                    if a.last() {
                        assert(b[a.len() - 1]);
                    }
                }
            }
        }
        if a.last() {
            assert(b[a.len() - 1]);
        }
    } else {
        assert(a =~= b);
    }
}

// ---------------------------------------------------------------------------------------
// Executable
// ---------------------------------------------------------------------------------------

/// The position of the service with the given id, if the configuration declares it.
fn find_service(services: &Vec<ServiceSpec>, id: &String) -> (res: Option<usize>)
    ensures
        match res {
            Some(j) => j < services@.len() && services@[j as int].service_id@ == id@,
            None => !declares(services@, id@),
        },
{
    let mut j: usize = 0;
    while j < services.len()
        invariant
            j <= services@.len(),
            forall|m: int| 0 <= m < j ==> services@[m].service_id@ != id@,
        decreases services@.len() - j,
    {
        if services[j].service_id == *id {
            return Some(j);
        }
        j += 1;
    }
    None
}

/// Checks that every dependency names a declared service; the error names the first
/// dependency, in configuration order, that does not.
pub fn validate_config(config: &Config) -> (res: Result<(), ConfigError>)
    ensures
        res is Ok <==> dependencies_known(config.services@),
        res matches Err(ConfigError::UnknownDependency { service, dependency }) ==> exists|
            i: int,
            k: int,
        |
            0 <= i < config.services@.len() && 0 <= k < config.services@[i].dependencies@.len()
                && service@ == config.services@[i].service_id@ && dependency@
                == config.services@[i].dependencies@[k]@ && !declares(config.services@, dependency@)
                && (forall|i2: int, k2: int|
                0 <= i2 < config.services@.len() && 0 <= k2
                    < config.services@[i2].dependencies@.len() && (i2 < i || (i2 == i && k2 < k))
                    ==> declares(config.services@, #[trigger] config.services@[i2].dependencies@[k2]@)),
{
    let services = &config.services;
    let mut i: usize = 0;
    while i < services.len()
        invariant
            services@ == config.services@,
            i <= services@.len(),
            forall|i2: int, k2: int|
                0 <= i2 < i && 0 <= k2 < services@[i2].dependencies@.len() ==> declares(
                    services@,
                    #[trigger] services@[i2].dependencies@[k2]@,
                ),
        decreases services@.len() - i,
    {
        let deps = &services[i].dependencies;
        let mut k: usize = 0;
        while k < deps.len()
            invariant
                services@ == config.services@,
                i < services@.len(),
                deps == services@[i as int].dependencies,
                k <= deps@.len(),
                forall|i2: int, k2: int|
                    0 <= i2 < i && 0 <= k2 < services@[i2].dependencies@.len() ==> declares(
                        services@,
                        #[trigger] services@[i2].dependencies@[k2]@,
                    ),
                forall|k2: int| 0 <= k2 < k ==> declares(services@, #[trigger] deps@[k2]@),
            decreases deps@.len() - k,
        {
            if find_service(services, &deps[k]).is_none() {
                let service = services[i].service_id.clone();
                let dependency = deps[k].clone();
                proof {
                    let d = services@[i as int].dependencies@[k as int]@;
                    assert(!declares(services@, d));
                    assert(0 <= i < config.services@.len() && 0 <= k < config.services@[i as int].dependencies@.len()
                        && service@ == config.services@[i as int].service_id@ && dependency@
                        == config.services@[i as int].dependencies@[k as int]@ && !declares(config.services@, dependency@));
                    assert(!dependencies_known(services@));
                    assert forall|i2: int, k2: int|
                        0 <= i2 < services@.len() && 0 <= k2 < services@[i2].dependencies@.len()
                            && (i2 < i || (i2 == i && k2 < k)) implies declares(
                        services@,
                        #[trigger] services@[i2].dependencies@[k2]@,
                    ) by {
                        if i2 == i {
                            assert(deps@[k2]@ == services@[i2].dependencies@[k2]@);
                        }
                    }
                }
                return Err(ConfigError::UnknownDependency { service, dependency });
            }
            k += 1;
        }
        i += 1;
    }
    Ok(())
}

/// The position of the report made under this id, if any.
fn find_report(reports: &Vec<ServiceReport>, id: &String) -> (res: Option<usize>)
    requires
        reports_unique(reports@),
    ensures
        match res {
            Some(k) => k < reports@.len() && reports@[k as int].service_id@ == id@
                && reported_state(reports@, id@) == Some(reports@[k as int].state)
                && reported_running(reports@, id@) == reports@[k as int].state.running,
            None => reported_state(reports@, id@) is None && !reported_running(reports@, id@),
        },
{
    let mut k: usize = 0;
    while k < reports.len()
        invariant
            k <= reports@.len(),
            reports_unique(reports@),
            forall|m: int| 0 <= m < k ==> reports@[m].service_id@ != id@,
        decreases reports@.len() - k,
    {
        if reports[k].service_id == *id {
            proof {
                assert(has_report(reports@, id@));
                let c = choose|c: int| 0 <= c < reports@.len() && reports@[c].service_id@ == id@;
                assert(c == k);
                if reported_running(reports@, id@) {
                    let m = choose|m: int| 0 <= m < reports@.len() && reports@[m].service_id@ == id@ && reports@[m].state.running;
                    if m != k {
                        assert(reports@[m].service_id@ != reports@[k as int].service_id@);
                    }
                }
            }
            return Some(k);
        }
        k += 1;
    }
    None
}

fn copy_error(e: &Option<String>) -> (res: Option<String>)
    ensures
        error_text(res) == error_text(*e),
{
    match e {
        Some(t) => Some(t.clone()),
        None => None,
    }
}

fn copy_state(s: &ServiceState) -> (res: ServiceState)
    ensures
        same_state(res, *s),
{
    ServiceState {
        schema_version: s.schema_version,
        build_version: s.build_version.clone(),
        config_version: s.config_version,
        running: s.running,
        has_input: s.has_input,
        has_output: s.has_output,
        last_error: copy_error(&s.last_error),
        updated_at_ns: s.updated_at_ns,
    }
}

/// The positions of every service's dependencies.
fn dependency_positions(services: &Vec<ServiceSpec>) -> (graph: Vec<Vec<usize>>)
    requires
        ids_unique(services@),
        dependencies_known(services@),
    ensures
        graph@.len() == services@.len(),
        forall|i: int|
            0 <= i < services@.len() ==> #[trigger] graph@[i]@.len()
                == services@[i].dependencies@.len(),
        forall|i: int, k: int|
            0 <= i < services@.len() && 0 <= k < services@[i].dependencies@.len()
                ==> #[trigger] graph@[i]@[k] as int == dependency_graph(services@)[i][k],
{
    let mut graph: Vec<Vec<usize>> = Vec::new();
    let mut i: usize = 0;
    while i < services.len()
        invariant
            ids_unique(services@),
            dependencies_known(services@),
            i <= services@.len(),
            graph@.len() == i,
            forall|i2: int|
                0 <= i2 < i ==> #[trigger] graph@[i2]@.len() == services@[i2].dependencies@.len(),
            forall|i2: int, k: int|
                0 <= i2 < i && 0 <= k < services@[i2].dependencies@.len()
                    ==> #[trigger] graph@[i2]@[k] as int == dependency_graph(services@)[i2][k],
        decreases services@.len() - i,
    {
        let deps = &services[i].dependencies;
        let mut row: Vec<usize> = Vec::new();
        let mut k: usize = 0;
        while k < deps.len()
            invariant
                ids_unique(services@),
                dependencies_known(services@),
                i < services@.len(),
                deps == services@[i as int].dependencies,
                k <= deps@.len(),
                row@.len() == k,
                forall|k2: int|
                    0 <= k2 < k ==> #[trigger] row@[k2] as int == dependency_graph(
                        services@,
                    )[i as int][k2],
            decreases deps@.len() - k,
        {
            let found = find_service(services, &deps[k]);
            proof {
                assert(declares(services@, services@[i as int].dependencies@[k as int]@));
            }
            let j = found.unwrap();
            proof {
                let id = deps@[k as int]@;
                let c = position(services@, id);
                assert(0 <= c < services@.len() && services@[c].service_id@ == id);
                assert(c == j as int);
            }
            row.push(j);
            k += 1;
        }
        graph.push(row);
        i += 1;
    }
    graph
}

/// One refinement round over the positions graph.
fn step_exec(graph: &Vec<Vec<usize>>, reported: &Vec<bool>, ready: &Vec<bool>) -> (next: Vec<bool>)
    requires
        graph@.len() == reported@.len(),
        ready@.len() == reported@.len(),
        forall|i: int, k: int|
            0 <= i < graph@.len() && 0 <= k < graph@[i]@.len() ==> #[trigger] graph@[i]@[k]
                < reported@.len(),
    ensures
        next@ == step(Seq::new(graph@.len(), |i: int| graph@[i]@.map_values(|v: usize| v as int)), reported@, ready@),
{
    let ghost g = Seq::new(graph@.len(), |i: int| graph@[i]@.map_values(|v: usize| v as int));
    let mut next: Vec<bool> = Vec::new();
    let mut i: usize = 0;
    while i < graph.len()
        invariant
            graph@.len() == reported@.len(),
            ready@.len() == reported@.len(),
            forall|i2: int, k: int|
                0 <= i2 < graph@.len() && 0 <= k < graph@[i2]@.len() ==> #[trigger] graph@[i2]@[k]
                    < reported@.len(),
            g == Seq::new(graph@.len(), |i: int| graph@[i]@.map_values(|v: usize| v as int)),
            i <= graph@.len(),
            next@.len() == i,
            forall|i2: int| 0 <= i2 < i ==> #[trigger] next@[i2] == step(g, reported@, ready@)[i2],
        decreases graph@.len() - i,
    {
        let row = &graph[i];
        let mut all = reported[i];
        let mut k: usize = 0;
        while k < row.len()
            invariant
                i < graph@.len(),
                row == graph@[i as int],
                graph@.len() == reported@.len(),
                ready@.len() == reported@.len(),
                forall|i2: int, k2: int|
                    0 <= i2 < graph@.len() && 0 <= k2 < graph@[i2]@.len() ==> #[trigger] graph@[i2]@[k2]
                        < reported@.len(),
                g == Seq::new(graph@.len(), |i: int| graph@[i]@.map_values(|v: usize| v as int)),
                k <= row@.len(),
                all == (reported@[i as int] && forall|k2: int|
                    0 <= k2 < k ==> ready@[#[trigger] g[i as int][k2]]),
            decreases row@.len() - k,
        {
            let d = row[k];
            proof {
                assert(g[i as int][k as int] == d as int);
            }
            all = all && ready[d];
            proof {
                if all {
                    assert forall|k2: int| 0 <= k2 < k + 1 implies ready@[#[trigger] g[i as int][k2]] by {
                        if k2 < k {
                        } else {
                            assert(g[i as int][k2] == d as int);
                        }
                    }
                }
            }
            k += 1;
        }
        proof {
            assert(g[i as int].len() == row@.len());
        }
        next.push(all);
        i += 1;
    }
    assert(next@ =~= step(g, reported@, ready@));
    next
}

fn bools_equal(a: &Vec<bool>, b: &Vec<bool>) -> (res: bool)
    ensures
        res == (a@ == b@),
{
    if a.len() != b.len() {
        return false;
    }
    let mut i: usize = 0;
    while i < a.len()
        invariant
            a@.len() == b@.len(),
            i <= a@.len(),
            forall|j: int| 0 <= j < i ==> a@[j] == b@[j],
        decreases a@.len() - i,
    {
        if a[i] != b[i] {
            return false;
        }
        i += 1;
    }
    assert(a@ =~= b@);
    true
}

/// The ready assignment: the greatest fixpoint of `step`, reached by at most one
/// refinement round per service.
fn effective_readiness(graph: &Vec<Vec<usize>>, reported: &Vec<bool>) -> (ready: Vec<bool>)
    requires
        graph@.len() == reported@.len(),
        forall|i: int, k: int|
            0 <= i < graph@.len() && 0 <= k < graph@[i]@.len() ==> #[trigger] graph@[i]@[k]
                < reported@.len(),
    ensures
        greatest_fixpoint(
            Seq::new(graph@.len(), |i: int| graph@[i]@.map_values(|v: usize| v as int)),
            reported@,
            ready@,
        ),
{
    let ghost g = Seq::new(graph@.len(), |i: int| graph@[i]@.map_values(|v: usize| v as int));
    let ghost r = reported@;
    let n = reported.len();
    proof {
        assert(graph_within(g, n as int)) by {
            assert forall|i: int, k: int| 0 <= i < n && 0 <= k < g[i].len() implies 0 <= #[trigger] g[i][k] < n by {
                assert(g[i][k] == graph@[i]@[k] as int);
            }
        }
        lemma_count_le_len(r);
    }
    let mut ready: Vec<bool> = Vec::new();
    let mut i: usize = 0;
    while i < n
        invariant
            n == reported@.len(),
            r == reported@,
            i <= n,
            ready@.len() == i,
            forall|j: int| 0 <= j < i ==> ready@[j] == reported@[j],
        decreases n - i,
    {
        ready.push(reported[i]);
        i += 1;
    }
    assert(ready@ =~= iterate(g, r, 0));
    let mut rounds: usize = 0;
    let mut stable = false;
    while rounds < n && !stable
        invariant
            graph@.len() == reported@.len(),
            forall|i: int, k: int|
                0 <= i < graph@.len() && 0 <= k < graph@[i]@.len() ==> #[trigger] graph@[i]@[k]
                    < reported@.len(),
            g == Seq::new(graph@.len(), |i: int| graph@[i]@.map_values(|v: usize| v as int)),
            graph_within(g, n as int),
            n == reported@.len(),
            r == reported@,
            rounds <= n,
            ready@ == iterate(g, r, rounds as nat),
            stable ==> step(g, r, ready@) == ready@,
            !stable ==> count_true(ready@) + rounds <= count_true(r),
        decreases 2 * (n - rounds) + if stable { 0int } else { 1int },
    {
        proof {
            lemma_iterate_len(g, r, rounds as nat);
        }
        let next = step_exec(graph, reported, &ready);
        if bools_equal(&next, &ready) {
            stable = true;
        } else {
            proof {
                lemma_iterate_decreasing(g, r, rounds as nat);
                assert(next@ == iterate(g, r, (rounds + 1) as nat));
                lemma_count_strict(next@, ready@);
            }
            ready = next;
            rounds += 1;
        }
    }
    proof {
        lemma_iterate_len(g, r, rounds as nat);
        if !stable {
            assert(rounds == n);
            lemma_count_le_len(r);
            assert(count_true(ready@) == 0);
            lemma_count_zero(ready@);
            lemma_iterate_decreasing(g, r, rounds as nat);
            lemma_iterate_len(g, r, (rounds + 1) as nat);
            let s = step(g, r, ready@);
            assert(s =~= ready@) by {
                assert forall|j: int| 0 <= j < n implies s[j] == ready@[j] by {
                    if s[j] {
                        assert(iterate(g, r, (rounds + 1) as nat)[j]);
                    }
                }
            }
        }
        assert forall|other: Seq<bool>|
            #![trigger step(g, r, other)]
            other.len() == r.len() && below(other, step(g, r, other)) implies below(other, ready@) by {
            lemma_post_fixpoint_below_iterate(g, r, other, rounds as nat);
        }
    }
    ready
}

/// Readiness of every configured service, in configuration order.
///
/// A service is `reported_ready` when it reported itself running; it is `ready` when it
/// is reported ready and all of its dependencies are ready (the greatest such
/// assignment); `blocked_by` lists, in declaration order, the dependencies that are not
/// ready; the system is ready when every service is.
pub fn evaluate(
    config: &Config,
    states: &Vec<ServiceReport>,
    schema_version: u32,
    updated_at_ns: i64,
) -> (res: SystemReadiness)
    requires
        ids_ascending(config.services@),
        dependencies_known(config.services@),
        reports_unique(states@),
    ensures
        res.schema_version == schema_version,
        res.updated_at_ns == updated_at_ns,
        res.services@.len() == config.services@.len(),
        forall|i: int|
            0 <= i < config.services@.len() ==> {
                &&& #[trigger] res.services@[i].service_id@ == config.services@[i].service_id@
                &&& res.services@[i].reported_ready == reported_vector(config.services@, states@)[i]
                &&& same_optional_state(
                    res.services@[i].state,
                    reported_state(states@, config.services@[i].service_id@),
                )
            },
        forall|i: int, j: int|
            0 <= i < j < res.services@.len() ==> seq_lt(
                #[trigger] res.services@[i].service_id@,
                #[trigger] res.services@[j].service_id@,
            ),
        greatest_fixpoint(
            dependency_graph(config.services@),
            reported_vector(config.services@, states@),
            ready_vector(res.services@),
        ),
        forall|i: int|
            0 <= i < config.services@.len() ==> #[trigger] names(res.services@[i].blocked_by@)
                == names(config.services@[i].dependencies@).filter(
                |d: Seq<char>| !ready_vector(res.services@)[position(config.services@, d)],
            ),
        res.ready == forall|i: int| 0 <= i < config.services@.len() ==> #[trigger] res.services@[i].ready,
{
    let services = &config.services;
    let n = services.len();
    proof {
        assert forall|i: int, j: int|
            0 <= i < services@.len() && 0 <= j < services@.len() && i != j implies services@[i].service_id@
                != services@[j].service_id@ by {
            lemma_lt_irreflexive(services@[i].service_id@);
            if i < j {
                assert(seq_lt(services@[i].service_id@, services@[j].service_id@));
            } else {
                assert(seq_lt(services@[j].service_id@, services@[i].service_id@));
            }
        }
    }
    let graph = dependency_positions(services);
    let mut reported: Vec<bool> = Vec::new();
    let mut i: usize = 0;
    while i < n
        invariant
            n == services@.len(),
            i <= n,
            reported@.len() == i,
            forall|j: int| 0 <= j < i ==> reported@[j] == reported_vector(services@, states@)[j],
            reports_unique(states@),
        decreases n - i,
    {
        let running = match find_report(states, &services[i].service_id) {
            Some(k) => states[k].state.running,
            None => false,
        };
        reported.push(running);
        i += 1;
    }
    let ghost r = reported_vector(services@, states@);
    assert(reported@ =~= r);
    let ghost g = Seq::new(graph@.len(), |i: int| graph@[i]@.map_values(|v: usize| v as int));
    assert(g =~= dependency_graph(services@)) by {
        assert forall|i: int| 0 <= i < n implies g[i] =~= dependency_graph(services@)[i] by {
            assert forall|k: int| 0 <= k < g[i].len() implies g[i][k] == dependency_graph(services@)[i][k] by {
                assert(graph@[i]@[k] as int == dependency_graph(services@)[i][k]);
            }
        }
    }
    proof {
        assert forall|i: int, k: int|
            0 <= i < graph@.len() && 0 <= k < graph@[i]@.len() implies #[trigger] graph@[i]@[k]
                < reported@.len() by {
            let d = services@[i].dependencies@[k]@;
            assert(declares(services@, d));
            let c = position(services@, d);
            assert(0 <= c < services@.len());
            assert(graph@[i]@[k] as int == dependency_graph(services@)[i][k]);
        }
    }
    let ready = effective_readiness(&graph, &reported);
    let mut out: Vec<ServiceReadiness> = Vec::new();
    let mut all_ready = true;
    let mut i: usize = 0;
    while i < n
        invariant
            n == services@.len(),
            reports_unique(states@),
            graph@.len() == n,
            ready@.len() == n,
            reported@ == r,
            r.len() == n,
            forall|i2: int|
                0 <= i2 < n ==> #[trigger] graph@[i2]@.len() == services@[i2].dependencies@.len(),
            forall|i2: int, k: int|
                0 <= i2 < n && 0 <= k < services@[i2].dependencies@.len()
                    ==> #[trigger] graph@[i2]@[k] as int == dependency_graph(services@)[i2][k],
            forall|i2: int, k: int|
                0 <= i2 < graph@.len() && 0 <= k < graph@[i2]@.len() ==> #[trigger] graph@[i2]@[k]
                    < n,
            i <= n,
            out@.len() == i,
            all_ready == forall|j: int| 0 <= j < i ==> #[trigger] ready@[j],
            forall|j: int|
                0 <= j < i ==> {
                    &&& (#[trigger] out@[j]).service_id@ == services@[j].service_id@
                    &&& out@[j].reported_ready == r[j]
                    &&& out@[j].ready == ready@[j]
                    &&& names(out@[j].blocked_by@) == names(services@[j].dependencies@).filter(
                        |d: Seq<char>| !ready@[position(services@, d)],
                    )
                    &&& same_optional_state(out@[j].state, reported_state(states@, services@[j].service_id@))
                },
        decreases n - i,
    {
        let deps = &services[i].dependencies;
        let row = &graph[i];
        let mut blocked: Vec<String> = Vec::new();
        let mut k: usize = 0;
        let ghost dv = names(deps@);
        let ghost pred = |d: Seq<char>| !ready@[position(services@, d)];
        assert(dv.take(0).filter(pred) =~= Seq::<Seq<char>>::empty()) by {
            reveal(Seq::filter);
        }
        while k < deps.len()
            invariant
                i < n,
                n == services@.len(),
                deps == services@[i as int].dependencies,
                row == graph@[i as int],
                row@.len() == deps@.len(),
                ready@.len() == n,
                dv == names(deps@),
                pred == (|d: Seq<char>| !ready@[position(services@, d)]),
                forall|k2: int|
                    0 <= k2 < deps@.len() ==> #[trigger] row@[k2] as int == position(
                        services@,
                        deps@[k2]@,
                    ),
                forall|k2: int| 0 <= k2 < row@.len() ==> #[trigger] row@[k2] < n,
                k <= deps@.len(),
                names(blocked@) == dv.take(k as int).filter(pred),
            decreases deps@.len() - k,
        {
            let d = row[k];
            proof {
                reveal(Seq::filter);
                assert(dv.take(k as int + 1).drop_last() =~= dv.take(k as int));
                assert(dv.take(k as int + 1).last() == deps@[k as int]@);
            }
            if !ready[d] {
                blocked.push(deps[k].clone());
                assert(names(blocked@) =~= dv.take(k as int).filter(pred).push(deps@[k as int]@));
            }
            k += 1;
        }
        assert(dv.take(deps@.len() as int) =~= dv);
        let state = match find_report(states, &services[i].service_id) {
            Some(k) => Some(copy_state(&states[k].state)),
            None => None,
        };
        let reported_ready = reported[i];
        let is_ready = ready[i];
        all_ready = all_ready && is_ready;
        out.push(
            ServiceReadiness {
                service_id: services[i].service_id.clone(),
                reported_ready,
                ready: is_ready,
                blocked_by: blocked,
                state,
            },
        );
        i += 1;
    }
    assert(ready_vector(out@) =~= ready@);
    assert(all_ready == forall|j: int| 0 <= j < n ==> #[trigger] out@[j].ready) by {
        assert forall|j: int| 0 <= j < n implies (#[trigger] out@[j]).ready == ready@[j] by {}
    }
    SystemReadiness { schema_version, ready: all_ready, services: out, updated_at_ns }
}


// ---------------------------------------------------------------------------------------
// Laws
// ---------------------------------------------------------------------------------------

proof fn lemma_dependency_graph_within(services: Seq<ServiceSpec>)
    requires
        dependencies_known(services),
    ensures
        graph_within(dependency_graph(services), services.len() as int),
{
    let g = dependency_graph(services);
    assert forall|i: int, k: int| 0 <= i < services.len() && 0 <= k < g[i].len() implies 0 <= #[trigger] g[i][k]
        < services.len() by {
        let d = services[i].dependencies@[k]@;
        assert(declares(services, d));
        assert(g[i][k] == position(services, d));
    }
}

/// When every declared service reports running, every service is ready: readiness asks
/// nothing of a service beyond running and its dependencies being ready.
pub proof fn all_running_services_are_ready(
    services: Seq<ServiceSpec>,
    reports: Seq<ServiceReport>,
    ready: Seq<bool>,
)
    requires
        dependencies_known(services),
        greatest_fixpoint(dependency_graph(services), reported_vector(services, reports), ready),
        forall|i: int| 0 <= i < services.len() ==> #[trigger] reported_vector(services, reports)[i],
    ensures
        forall|i: int| 0 <= i < services.len() ==> #[trigger] ready[i],
{
    let g = dependency_graph(services);
    let r = reported_vector(services, reports);
    lemma_dependency_graph_within(services);
    let all = Seq::new(services.len(), |i: int| true);
    assert(below(all, step(g, r, all)));
    assert forall|i: int| 0 <= i < services.len() implies #[trigger] ready[i] by {
        assert(all[i]);
    }
}

/// A ready service reports running, and every service it depends on is ready.
pub proof fn ready_services_run_on_ready_dependencies(
    services: Seq<ServiceSpec>,
    reports: Seq<ServiceReport>,
    ready: Seq<bool>,
    i: int,
)
    requires
        dependencies_known(services),
        greatest_fixpoint(dependency_graph(services), reported_vector(services, reports), ready),
        0 <= i < services.len(),
        ready[i],
    ensures
        reported_running(reports, services[i].service_id@),
        forall|k: int| 0 <= k < services[i].dependencies@.len() ==> #[trigger] ready[position(services, services[i].dependencies@[k]@)],
{
    let g = dependency_graph(services);
    let r = reported_vector(services, reports);
    assert(step(g, r, ready)[i] == ready[i]);
    assert forall|k: int| 0 <= k < services[i].dependencies@.len() implies #[trigger] ready[position(services, services[i].dependencies@[k]@)] by {
        assert(g[i][k] == position(services, services[i].dependencies@[k]@));
    }
}

/// A service that depends on a service that is not running is not ready, nor is any
/// service that does not itself run.
pub proof fn missing_dependency_blocks_readiness(
    services: Seq<ServiceSpec>,
    reports: Seq<ServiceReport>,
    ready: Seq<bool>,
    i: int,
    k: int,
)
    requires
        dependencies_known(services),
        greatest_fixpoint(dependency_graph(services), reported_vector(services, reports), ready),
        0 <= i < services.len(),
        0 <= k < services[i].dependencies@.len(),
        !reported_running(reports, services[i].dependencies@[k]@),
    ensures
        !ready[i],
        !ready[position(services, services[i].dependencies@[k]@)],
{
    let g = dependency_graph(services);
    let r = reported_vector(services, reports);
    let d = services[i].dependencies@[k]@;
    let j = position(services, d);
    assert(declares(services, d));
    assert(0 <= j < services.len() && services[j].service_id@ == d);
    assert(step(g, r, ready)[j] == ready[j]);
    assert(!r[j]);
    if ready[i] {
        ready_services_run_on_ready_dependencies(services, reports, ready, i);
        assert(ready[position(services, services[i].dependencies@[k]@)]);
    }
}

/// More services running never makes any service less ready: with the same
/// configuration, when every service that runs in the first report also runs in the
/// second, each service ready in the first is ready in the second, and so is the system.
pub proof fn more_running_services_never_lower_readiness(
    services: Seq<ServiceSpec>,
    first: Seq<ServiceReport>,
    second: Seq<ServiceReport>,
    first_ready: Seq<bool>,
    second_ready: Seq<bool>,
)
    requires
        dependencies_known(services),
        greatest_fixpoint(dependency_graph(services), reported_vector(services, first), first_ready),
        greatest_fixpoint(dependency_graph(services), reported_vector(services, second), second_ready),
        forall|id: Seq<char>| #[trigger] reported_running(first, id) ==> reported_running(second, id),
    ensures
        forall|i: int| 0 <= i < services.len() && #[trigger] first_ready[i] ==> second_ready[i],
        (forall|i: int| 0 <= i < services.len() ==> #[trigger] first_ready[i]) ==> forall|i: int|
            0 <= i < services.len() ==> #[trigger] second_ready[i],
{
    let g = dependency_graph(services);
    let r1 = reported_vector(services, first);
    let r2 = reported_vector(services, second);
    assert(step(g, r1, first_ready) == first_ready);
    assert forall|i: int| 0 <= i < first_ready.len() && #[trigger] first_ready[i] implies step(g, r2, first_ready)[i] by {
        assert(step(g, r1, first_ready)[i]);
        assert(reported_running(first, services[i].service_id@));
    }
    assert(below(first_ready, step(g, r2, first_ready)));
    assert(below(first_ready, second_ready));
    if forall|i: int| 0 <= i < services.len() ==> #[trigger] first_ready[i] {
        assert forall|i: int| 0 <= i < services.len() implies #[trigger] second_ready[i] by {
            assert(first_ready[i]);
        }
    }
}

} // verus!
