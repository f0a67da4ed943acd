//! Rules for dependencies between services.

use vstd::prelude::*;
use crate::config::{ForgeConfig, ServiceSpec};
use crate::config::validate::services::{in_service, service_context};
use crate::error::{first_complaint, invalid, verdict, Complaint, ForgeError};
use crate::graph::{
    compute_in_degrees, count_from, degrees_fit, edge, has_cycle, in_degree, is_cycle, kahn_bfs,
    pending,
};
use crate::strmap::{
    has_key, keys_ascend, lemma_value_iff_key, lemma_with_entry, value_of, with_entry, StrMap,
};
use crate::text::{debug_form, join2, quoted, same_text};

verus! {

// ---------------------------------------------------------------
// Model
// ---------------------------------------------------------------

/// The position of the service that a name refers to: the last one that has it.
pub open spec fn provider(services: Seq<ServiceSpec>, name: Seq<char>) -> Option<int>
    decreases services.len(),
{
    if services.len() == 0 {
        None
    } else if services.last().name@ == name {
        Some(services.len() - 1)
    } else {
        provider(services.drop_last(), name)
    }
}

/// True when one of the first `k` dependencies of service `i` is service `j`.
pub open spec fn depends_within(services: Seq<ServiceSpec>, i: int, k: int, j: int) -> bool {
    exists|m: int|
        0 <= m < k && provider(services, (#[trigger] services[i].depends_on@[m])@) == Some(j)
}

/// True when service `i` depends on service `j`.
pub open spec fn depends(services: Seq<ServiceSpec>, i: int, j: int) -> bool {
    0 <= i < services.len() && depends_within(services, i, services[i].depends_on@.len() as int, j)
}

/// True when each service of `path` but the first depends on the one before
/// it, and the last is the first.
pub open spec fn is_dep_cycle(services: Seq<ServiceSpec>, path: Seq<int>) -> bool {
    &&& path.len() >= 2
    &&& path.first() == path.last()
    &&& forall|i: int| 0 <= i < path.len() - 1 ==> depends(services, path[i + 1], #[trigger] path[i])
}

/// True when some service depends on itself through other services.
pub open spec fn has_dep_cycle(services: Seq<ServiceSpec>) -> bool {
    exists|path: Seq<int>| is_dep_cycle(services, path)
}

/// What a name refers to has that name and is the last that has it.
pub proof fn lemma_provider(services: Seq<ServiceSpec>, name: Seq<char>)
    ensures
        match provider(services, name) {
            Some(j) => 0 <= j < services.len() && services[j].name@ == name && forall|i: int|
                j < i < services.len() ==> (#[trigger] services[i]).name@ != name,
            None => forall|i: int|
                0 <= i < services.len() ==> (#[trigger] services[i]).name@ != name,
        },
    decreases services.len(),
{
    if services.len() > 0 && services.last().name@ != name {
        let rest = services.drop_last();
        lemma_provider(rest, name);
        assert forall|i: int|
            0 <= i < services.len() && (provider(rest, name) is Some ==> provider(rest, name)->0
                < i) implies (#[trigger] services[i]).name@ != name by {
            if i < services.len() - 1 {
                assert(rest[i] == services[i]);
            }
        }
    }
}

// ---------------------------------------------------------------
// Name index
// ---------------------------------------------------------------

/// The entry that a name index holds for a name.
pub open spec fn index_entry(found: Option<int>) -> Option<usize> {
    match found {
        Some(i) => Some(i as usize),
        None => None,
    }
}

/// True when an index maps each name to the service that it refers to.
pub open spec fn indexes(index: Seq<(Seq<char>, usize)>, services: Seq<ServiceSpec>) -> bool {
    forall|name: Seq<char>|
        #[trigger] value_of(index, name) == index_entry(provider(services, name))
}

/// Map each service name to its index in the services list.
pub fn build_svc_name_index(services: &Vec<ServiceSpec>) -> (index: StrMap<usize>)
    ensures
        indexes(index@, services@),
{
    let mut index: StrMap<usize> = StrMap::new();
    let mut i: usize = 0;
    while i < services.len()
        invariant
            i <= services@.len(),
            keys_ascend(index@),
            indexes(index@, services@.take(i as int)),
        decreases services.len() - i,
    {
        let ghost before = index@;
        let key = services[i].name.clone();
        proof {
            lemma_with_entry(before, key@, i);
            let shorter = services@.take(i as int);
            let longer = services@.take(i + 1);
            assert(longer.drop_last() =~= shorter);
            assert(longer.last() == services@[i as int]);
            assert forall|name: Seq<char>|
                #[trigger] value_of(with_entry(before, key@, i), name) == index_entry(
                    provider(longer, name),
                ) by {
                if name != key@ {
                    assert(value_of(before, name) == index_entry(provider(shorter, name)));
                }
            }
        }
        index.insert(key, i);
        i += 1;
    }
    assert(services@.take(i as int) =~= services@);
    index
}

// ---------------------------------------------------------------
// References
// ---------------------------------------------------------------

/// What is wrong with one dependency, given whether a service has its name.
pub open spec fn single_dep_complaint(
    service: Seq<char>,
    dep: Seq<char>,
    known: bool,
) -> Complaint {
    if dep == service {
        Some(service_context(service, "depends on itself"@))
    } else if !known {
        Some(service_context(service, "depends on unknown service "@ + debug_form(dep)))
    } else {
        None
    }
}

/// Validate a single dependency reference.
pub fn check_single_dep(svc_name: &str, dep: &str, known: &StrMap<usize>) -> (r: Result<
    (),
    ForgeError,
>)
    ensures
        verdict(r, single_dep_complaint(svc_name@, dep@, has_key(known@, dep@))),
{
    if same_text(dep, svc_name) {
        return invalid(in_service(svc_name, "depends on itself"));
    }
    if !known.contains_key(dep) {
        return invalid(
            in_service(svc_name, &join2("depends on unknown service ", &quoted(dep))),
        );
    }
    Ok(())
}

/// What is wrong with the dependencies of service `i` from position `k` on.
pub open spec fn deps_of_complaint(services: Seq<ServiceSpec>, i: int, k: int) -> Complaint
    decreases services[i].depends_on@.len() - k,
{
    if k < 0 || k >= services[i].depends_on@.len() {
        None
    } else {
        first_complaint(
            single_dep_complaint(
                services[i].name@,
                services[i].depends_on@[k]@,
                provider(services, services[i].depends_on@[k]@) is Some,
            ),
            deps_of_complaint(services, i, k + 1),
        )
    }
}

/// What is wrong with the dependencies of the services from position `i` on.
pub open spec fn service_deps_complaint(services: Seq<ServiceSpec>, i: int) -> Complaint
    decreases services.len() - i,
{
    if i < 0 || i >= services.len() {
        None
    } else {
        first_complaint(
            deps_of_complaint(services, i, 0),
            service_deps_complaint(services, i + 1),
        )
    }
}

/// Validate that all service dependency references are valid.
pub fn check_service_deps(config: &ForgeConfig) -> (r: Result<(), ForgeError>)
    ensures
        verdict(r, service_deps_complaint(config.spec.services@, 0)),
{
    let services = &config.spec.services;
    let names = build_svc_name_index(services);
    let mut i: usize = 0;
    while i < services.len()
        invariant
            services@ == config.spec.services@,
            indexes(names@, services@),
            i <= services@.len(),
            service_deps_complaint(services@, 0) == service_deps_complaint(services@, i as int),
        decreases services.len() - i,
    {
        let svc = &services[i];
        let mut k: usize = 0;
        while k < svc.depends_on.len()
            invariant
                services@ == config.spec.services@,
                indexes(names@, services@),
                i < services@.len(),
                *svc == services@[i as int],
                k <= svc.depends_on@.len(),
                service_deps_complaint(services@, 0) == first_complaint(
                    deps_of_complaint(services@, i as int, k as int),
                    service_deps_complaint(services@, i + 1),
                ),
            decreases svc.depends_on.len() - k,
        {
            proof {
                let dep = svc.depends_on@[k as int]@;
                lemma_value_iff_key(names@, dep);
                assert(value_of(names@, dep) == index_entry(provider(services@, dep)));
            }
            check_single_dep(&svc.name, &svc.depends_on[k], &names)?;
            k += 1;
        }
        i += 1;
    }
    Ok(())
}

// ---------------------------------------------------------------
// Auto-start
// ---------------------------------------------------------------

/// True when a name refers to a service that is not started automatically.
pub open spec fn skipped_by_up(services: Seq<ServiceSpec>, name: Seq<char>) -> bool {
    match provider(services, name) {
        Some(j) => !services[j].auto_start,
        None => false,
    }
}

/// What is wrong with the dependencies of service `i` from position `k` on,
/// when service `i` is started automatically.
pub open spec fn auto_deps_of_complaint(services: Seq<ServiceSpec>, i: int, k: int) -> Complaint
    decreases services[i].depends_on@.len() - k,
{
    if k < 0 || k >= services[i].depends_on@.len() {
        None
    } else if skipped_by_up(services, services[i].depends_on@[k]@) {
        Some(
            service_context(
                services[i].name@,
                "auto-started service depends on non-auto-start service "@ + debug_form(
                    services[i].depends_on@[k]@,
                ),
            ),
        )
    } else {
        auto_deps_of_complaint(services, i, k + 1)
    }
}

/// What is wrong with what the automatically started services from position
/// `i` on depend on.
pub open spec fn auto_start_complaint(services: Seq<ServiceSpec>, i: int) -> Complaint
    decreases services.len() - i,
{
    if i < 0 || i >= services.len() {
        None
    } else {
        first_complaint(
            if services[i].auto_start {
                auto_deps_of_complaint(services, i, 0)
            } else {
                None
            },
            auto_start_complaint(services, i + 1),
        )
    }
}

fn check_auto_deps(services: &Vec<ServiceSpec>, index: &StrMap<usize>, i: usize) -> (r: Result<
    (),
    ForgeError,
>)
    requires
        i < services@.len(),
        indexes(index@, services@),
    ensures
        verdict(r, auto_deps_of_complaint(services@, i as int, 0)),
{
    let svc = &services[i];
    let n = services.len();
    let mut k: usize = 0;
    while k < svc.depends_on.len()
        invariant
            n == services@.len(),
            i < services@.len(),
            indexes(index@, services@),
            *svc == services@[i as int],
            k <= svc.depends_on@.len(),
            auto_deps_of_complaint(services@, i as int, 0) == auto_deps_of_complaint(
                services@,
                i as int,
                k as int,
            ),
        decreases svc.depends_on.len() - k,
    {
        let dep = &svc.depends_on[k];
        proof {
            lemma_provider(services@, dep@);
            assert(value_of(index@, dep@) == index_entry(provider(services@, dep@)));
        }
        if let Some(j) = index.get(dep) {
            let j: usize = *j;
            let other = &services[j];
            if !other.auto_start {
                return invalid(
                    in_service(
                        &svc.name,
                        &join2(
                            "auto-started service depends on non-auto-start service ",
                            &quoted(dep),
                        ),
                    ),
                );
            }
        }
        k += 1;
    }
    Ok(())
}

/// Auto-started services cannot depend on services skipped by `forge up`.
pub fn check_service_auto_start_deps(config: &ForgeConfig) -> (r: Result<(), ForgeError>)
    ensures
        verdict(r, auto_start_complaint(config.spec.services@, 0)),
{
    let services = &config.spec.services;
    let index = build_svc_name_index(services);
    let mut i: usize = 0;
    while i < services.len()
        invariant
            services@ == config.spec.services@,
            indexes(index@, services@),
            i <= services@.len(),
            auto_start_complaint(services@, 0) == auto_start_complaint(services@, i as int),
        decreases services.len() - i,
    {
        let svc = &services[i];
        if svc.auto_start {
            check_auto_deps(services, &index, i)?;
        }
        i += 1;
    }
    Ok(())
}

// ---------------------------------------------------------------
// Cycles
// ---------------------------------------------------------------

proof fn lemma_count_push(heads: Seq<usize>, x: usize, k: int, b: int)
    requires
        0 <= k <= heads.len(),
    ensures
        count_from(heads.push(x), k, b) == count_from(heads, k, b) + if x == b {
            1nat
        } else {
            0nat
        },
    decreases heads.len() - k,
{
    if k < heads.len() {
        lemma_count_push(heads, x, k + 1, b);
        assert(heads.push(x)[k] == heads[k]);
    } else {
        assert(count_from(heads.push(x), k + 1, b) == 0);
    }
}

proof fn lemma_pending_push(
    before: Seq<Vec<usize>>,
    after: Seq<Vec<usize>>,
    j: int,
    x: usize,
    a: int,
    b: int,
)
    requires
        0 <= j < before.len(),
        after.len() == before.len(),
        after[j]@ == before[j]@.push(x),
        forall|m: int| 0 <= m < before.len() && m != j ==> #[trigger] after[m] == before[m],
        0 <= a <= before.len(),
    ensures
        pending(after, Set::empty(), a, b) == pending(before, Set::empty(), a, b) + if a <= j && x
            == b {
            1nat
        } else {
            0nat
        },
    decreases before.len() - a,
{
    if a < before.len() {
        lemma_pending_push(before, after, j, x, a + 1, b);
        if a == j {
            lemma_count_push(before[j]@, x, 0, b);
        }
    }
}

proof fn lemma_pending_of_empty(adj: Seq<Vec<usize>>, a: int, b: int)
    requires
        forall|m: int| 0 <= m < adj.len() ==> (#[trigger] adj[m])@.len() == 0,
        0 <= a <= adj.len(),
    ensures
        pending(adj, Set::empty(), a, b) == 0,
    decreases adj.len() - a,
{
    if a < adj.len() {
        lemma_pending_of_empty(adj, a + 1, b);
        assert(adj[a]@.len() == 0);
    }
}

proof fn lemma_edge_push(
    before: Seq<Vec<usize>>,
    after: Seq<Vec<usize>>,
    j: int,
    x: usize,
    a: int,
    b: int,
)
    requires
        0 <= j < before.len(),
        after.len() == before.len(),
        after[j]@ == before[j]@.push(x),
        forall|m: int| 0 <= m < before.len() && m != j ==> #[trigger] after[m] == before[m],
        0 <= x < before.len(),
    ensures
        edge(after, a, b) <==> edge(before, a, b) || (a == j && b == x),
{
    if edge(before, a, b) {
        let k = choose|k: int| 0 <= k < before[a]@.len() && #[trigger] before[a]@[k] == b;
        assert(after[a]@[k] == b);
    }
    if a == j && b == x {
        assert(after[j]@[before[j]@.len() as int] == x);
    }
    if edge(after, a, b) && !(a == j && b == x) {
        let k = choose|k: int| 0 <= k < after[a]@.len() && #[trigger] after[a]@[k] == b;
        if a == j {
            assert(k < before[j]@.len());
        }
        assert(before[a]@[k] == b);
    }
}

/// True when an edge of `adj` leads from each service to each service that
/// depends on it, looking at the services before `i` and at the first `k`
/// dependencies of service `i`.
spec fn linked_so_far(
    adj: Seq<Vec<usize>>,
    services: Seq<ServiceSpec>,
    i: int,
    k: int,
) -> bool {
    forall|a: int, b: int|
        0 <= b < services.len() ==> (#[trigger] edge(adj, a, b) <==> (b < i && depends(
            services,
            b,
            a,
        )) || (b == i && depends_within(services, i, k, a)))
}

/// Build adjacency list from dependency edges.
pub fn build_svc_adjacency(services: &Vec<ServiceSpec>, index: &StrMap<usize>) -> (adj: Vec<
    Vec<usize>,
>)
    requires
        indexes(index@, services@),
    ensures
        adj@.len() == services@.len(),
        forall|a: int, b: int|
            0 <= b < services@.len() ==> (#[trigger] edge(adj@, a, b) <==> depends(services@, b, a)),
        degrees_fit(adj@),
{
    let n = services.len();
    let mut adj: Vec<Vec<usize>> = Vec::new();
    let mut c: usize = 0;
    while c < n
        invariant
            c <= n,
            adj@.len() == c,
            forall|m: int| 0 <= m < adj@.len() ==> (#[trigger] adj@[m])@.len() == 0,
        decreases n - c,
    {
        adj.push(Vec::new());
        c += 1;
    }
    let mut i: usize = 0;
    proof {
        assert forall|b: int| 0 <= b < n implies #[trigger] in_degree(adj@, b) == 0 by {
            lemma_pending_of_empty(adj@, 0, b);
        }
        assert(linked_so_far(adj@, services@, 0, 0));
    }
    while i < n
        invariant
            n == services@.len(),
            adj@.len() == n,
            indexes(index@, services@),
            i <= n,
            linked_so_far(adj@, services@, i as int, 0),
            forall|b: int|
                0 <= b < n ==> #[trigger] in_degree(adj@, b) <= if b < i {
                    services@[b].depends_on@.len()
                } else {
                    0
                },
        decreases n - i,
    {
        let svc = &services[i];
        let mut k: usize = 0;
        while k < svc.depends_on.len()
            invariant
                n == services@.len(),
                adj@.len() == n,
                indexes(index@, services@),
                i < n,
                *svc == services@[i as int],
                k <= svc.depends_on@.len(),
                linked_so_far(adj@, services@, i as int, k as int),
                forall|b: int|
                    0 <= b < n ==> #[trigger] in_degree(adj@, b) <= if b < i {
                        services@[b].depends_on@.len()
                    } else if b == i {
                        k as nat
                    } else {
                        0
                    },
            decreases svc.depends_on.len() - k,
        {
            let dep = &svc.depends_on[k];
            let ghost before = adj@;
            proof {
                lemma_provider(services@, dep@);
                assert(value_of(index@, dep@) == index_entry(provider(services@, dep@)));
                assert forall|a: int|
                    #[trigger] depends_within(services@, i as int, k + 1, a) <==> depends_within(
                        services@,
                        i as int,
                        k as int,
                        a,
                    ) || provider(services@, dep@) == Some(a) by {
                    if provider(services@, dep@) == Some(a) {
                        assert(provider(services@, services@[i as int].depends_on@[k as int]@)
                            == Some(a));
                    }
                    if depends_within(services@, i as int, k as int, a) {
                        let m = choose|m: int|
                            0 <= m < k && provider(
                                services@,
                                (#[trigger] services@[i as int].depends_on@[m])@,
                            ) == Some(a);
                        assert(provider(services@, services@[i as int].depends_on@[m]@) == Some(a));
                    }
                }
            }
            if let Some(found) = index.get(dep) {
                let j: usize = *found;
                adj[j].push(i);
                proof {
                    assert(adj@[j as int]@ == before[j as int]@.push(i));
                    assert forall|b: int| 0 <= b < n implies #[trigger] in_degree(adj@, b)
                        == in_degree(before, b) + if b == i {
                        1nat
                    } else {
                        0nat
                    } by {
                        lemma_pending_push(before, adj@, j as int, i, 0, b);
                    }
                    assert forall|a: int, b: int| 0 <= b < services@.len() implies (#[trigger] edge(
                        adj@,
                        a,
                        b,
                    ) <==> (b < i && depends(services@, b, a)) || (b == i && depends_within(
                        services@,
                        i as int,
                        k + 1,
                        a,
                    ))) by {
                        lemma_edge_push(before, adj@, j as int, i, a, b);
                        assert(depends_within(services@, i as int, k + 1, a) <==> depends_within(
                            services@,
                            i as int,
                            k as int,
                            a,
                        ) || provider(services@, dep@) == Some(a));
                    }
                }
            } else {
                assert forall|a: int, b: int| 0 <= b < services@.len() implies (#[trigger] edge(
                    adj@,
                    a,
                    b,
                ) <==> (b < i && depends(services@, b, a)) || (b == i && depends_within(
                    services@,
                    i as int,
                    k + 1,
                    a,
                ))) by {
                    assert(depends_within(services@, i as int, k + 1, a) <==> depends_within(
                        services@,
                        i as int,
                        k as int,
                        a,
                    ) || provider(services@, dep@) == Some(a));
                }
            }
            k += 1;
        }
        assert forall|a: int, b: int| 0 <= b < services@.len() implies (#[trigger] edge(adj@, a, b)
            <==> (b < i + 1 && depends(services@, b, a)) || (b == i + 1 && depends_within(
            services@,
            i + 1,
            0,
            a,
        ))) by {
            assert(!depends_within(services@, i + 1, 0, a));
        }
        i += 1;
    }
    proof {
        assert forall|b: int| 0 <= b < adj@.len() implies #[trigger] in_degree(adj@, b)
            <= usize::MAX by {
            assert(services@[b].depends_on.len() <= usize::MAX);
        }
    }
    adj
}

/// What is wrong with the edges of a dependency graph.
pub open spec fn cycle_complaint(cyclic: bool) -> Complaint {
    if cyclic {
        Some("service dependency cycle detected"@)
    } else {
        None
    }
}

/// Run Kahn's algorithm to detect cycles.
pub fn detect_dep_cycle(count: usize, adj: &Vec<Vec<usize>>) -> (r: Result<(), ForgeError>)
    requires
        adj@.len() == count,
        degrees_fit(adj@),
    ensures
        verdict(r, cycle_complaint(has_cycle(adj@))),
{
    let mut in_deg = compute_in_degrees(count, adj.as_slice());
    let visited = kahn_bfs(&mut in_deg, adj.as_slice());
    if visited != count {
        return invalid("service dependency cycle detected".to_owned());
    }
    Ok(())
}

/// Detect dependency cycles among services using topological sort.
pub fn check_service_dep_cycles(config: &ForgeConfig) -> (r: Result<(), ForgeError>)
    ensures
        verdict(r, cycle_complaint(has_dep_cycle(config.spec.services@))),
{
    let services = &config.spec.services;
    let index = build_svc_name_index(services);
    let adj = build_svc_adjacency(services, &index);
    proof {
        lemma_cycles_agree(services@, adj@);
    }
    detect_dep_cycle(services.len(), &adj)
}

/// Services depend on each other in a circle exactly when the graph of their
/// dependencies has a cycle.
pub proof fn lemma_cycles_agree(services: Seq<ServiceSpec>, adj: Seq<Vec<usize>>)
    requires
        adj.len() == services.len(),
        forall|a: int, b: int|
            0 <= b < services.len() ==> (#[trigger] edge(adj, a, b) <==> depends(services, b, a)),
    ensures
        has_cycle(adj) <==> has_dep_cycle(services),
{
    if has_cycle(adj) {
        let path = choose|path: Seq<int>| is_cycle(adj, path);
        assert forall|i: int| 0 <= i < path.len() - 1 implies depends(
            services,
            path[i + 1],
            #[trigger] path[i],
        ) by {
            assert(edge(adj, path[i], path[i + 1]));
        }
        assert(is_dep_cycle(services, path));
    }
    if has_dep_cycle(services) {
        let path = choose|path: Seq<int>| is_dep_cycle(services, path);
        assert forall|i: int| 0 <= i < path.len() - 1 implies edge(
            adj,
            #[trigger] path[i],
            path[i + 1],
        ) by {
            assert(depends(services, path[i + 1], path[i]));
            assert(edge(adj, path[i], path[i + 1]) <==> depends(services, path[i + 1], path[i]));
        }
        assert(is_cycle(adj, path));
    }
}

} // verus!
