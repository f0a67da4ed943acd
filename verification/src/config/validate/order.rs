//! Acceptance does not depend on the order of clusters and services.

use vstd::prelude::*;
use crate::config::document::{
    cluster_json, cluster_list_json, service_json, service_list_json, spec_json,
};
use crate::config::validate::clusters::{
    cluster_names_complaint, cluster_node_complaint, cluster_nodes_complaint,
    cluster_ports_complaint, cluster_stack_refs_complaint, kind_names_complaint,
    ports_of_cluster_complaint, stack_refs_complaint,
};
use crate::config::validate::deps::{
    auto_deps_of_complaint, auto_start_complaint, depends, deps_of_complaint, has_dep_cycle,
    is_dep_cycle, lemma_provider, provider, service_deps_complaint,
};
use crate::config::validate::fields::has_template_token;
use crate::config::validate::laws::{
    accepted, lemma_attached, lemma_auto_deps_of, lemma_auto_start, lemma_cluster_names,
    lemma_cluster_nodes, lemma_cluster_ports, lemma_cluster_stack_refs, lemma_deps_of,
    lemma_kind_names, lemma_service_deps, lemma_service_names, lemma_services,
};
use crate::config::validate::names::{is_dns_label, is_docker_name};
use crate::config::validate::ports::{
    all_claims, claims_complaint, cluster_claims, lemma_accepted_claims_are_disjoint,
    ports_conflict, service_claims,
};
use crate::config::validate::services::{
    service_complaint, service_names_complaint, services_complaint,
};
use crate::config::validate::templates::{
    lemma_template_path_found, mentions_template, without_stacks,
};
use crate::config::validate::attached_complaint;
use crate::config::{ClusterSpec, ForgeConfig, NetworkMode, PortMapping, ServiceSpec, StackSpec};
use crate::graph::lemma_bounded_set;
use crate::json::JsonView;
use crate::naming::kind_name_of;

verus! {

// ---------------------------------------------------------------
// Reorderings
// ---------------------------------------------------------------

/// True when item `i` of `b` is item `from[i]` of `a`, and each item of `a` is
/// taken once.
pub open spec fn reorders<A>(a: Seq<A>, b: Seq<A>, from: Seq<int>) -> bool {
    &&& a.len() == b.len()
    &&& from.len() == b.len()
    &&& from.no_duplicates()
    &&& forall|i: int|
        0 <= i < b.len() ==> 0 <= #[trigger] from[i] < a.len() && b[i] == a[from[i]]
}

/// True when two lists hold the same items, in whatever order.
pub open spec fn is_reordering<A>(a: Seq<A>, b: Seq<A>) -> bool {
    exists|from: Seq<int>| reorders(a, b, from)
}

/// True when two configurations differ in the order of their clusters and
/// services alone.
pub open spec fn reordered(a: ForgeConfig, b: ForgeConfig) -> bool {
    &&& a.api_version == b.api_version
    &&& a.kind == b.kind
    &&& a.metadata == b.metadata
    &&& a.spec.runtime == b.spec.runtime
    &&& a.spec.network == b.spec.network
    &&& a.spec.certificates == b.spec.certificates
    &&& a.spec.stacks == b.spec.stacks
    &&& is_reordering(a.spec.clusters@, b.spec.clusters@)
    &&& is_reordering(a.spec.services@, b.spec.services@)
}

proof fn lemma_covers<A>(a: Seq<A>, b: Seq<A>, from: Seq<int>, k: int)
    requires
        reorders(a, b, from),
        0 <= k < a.len(),
    ensures
        exists|i: int| 0 <= i < b.len() && #[trigger] from[i] == k,
{
    from.unique_seq_to_set();
    assert forall|x: int| #[trigger] from.to_set().contains(x) implies 0 <= x < a.len() by {
        let i = choose|i: int| 0 <= i < from.len() && from[i] == x;
        assert(from[i] == x);
    }
    lemma_bounded_set(a.len() as int, from.to_set());
    assert(from.to_set().contains(k));
    let i = choose|i: int| 0 <= i < from.len() && from[i] == k;
    assert(from[i] == k);
}

proof fn lemma_reordering_symmetric<A>(a: Seq<A>, b: Seq<A>)
    requires
        is_reordering(a, b),
    ensures
        is_reordering(b, a),
{
    let from = choose|from: Seq<int>| reorders(a, b, from);
    let back = Seq::new(
        a.len(),
        |k: int| choose|i: int| 0 <= i < b.len() && #[trigger] from[i] == k,
    );
    assert forall|k: int| 0 <= k < a.len() implies 0 <= #[trigger] back[k] < b.len()
        && from[back[k]] == k by {
        lemma_covers(a, b, from, k);
        let i = choose|i: int| 0 <= i < b.len() && #[trigger] from[i] == k;
        assert(back[k] == i);
    }
    assert(back.no_duplicates()) by {
        assert forall|j: int, k: int|
            0 <= j < back.len() && 0 <= k < back.len() && j != k implies back[j] != back[k] by {
            assert(from[back[j]] == j);
            assert(from[back[k]] == k);
        }
    }
    assert forall|k: int| 0 <= k < a.len() implies 0 <= #[trigger] back[k] < b.len() && a[k]
        == b[back[k]] by {
        assert(b[back[k]] == a[from[back[k]]]);
    }
    assert(reorders(b, a, back));
}

// ---------------------------------------------------------------
// Clusters
// ---------------------------------------------------------------

proof fn lemma_no_name_complaint(clusters: Seq<ClusterSpec>, i: int)
    requires
        0 <= i <= clusters.len(),
        forall|k: int| 0 <= k < clusters.len() ==> is_dns_label((#[trigger] clusters[k]).name@),
        forall|j: int, k: int|
            0 <= j < k < clusters.len() ==> (#[trigger] clusters[j]).name@ != (
            #[trigger] clusters[k]).name@,
    ensures
        cluster_names_complaint(clusters, i) is None,
    decreases clusters.len() - i,
{
    if i < clusters.len() {
        lemma_no_name_complaint(clusters, i + 1);
        assert(is_dns_label(clusters[i].name@));
    }
}

proof fn lemma_no_kind_name_complaint(prefix: Seq<char>, clusters: Seq<ClusterSpec>, i: int)
    requires
        0 <= i <= clusters.len(),
        forall|k: int|
            0 <= k < clusters.len() ==> is_docker_name(
                kind_name_of(prefix, (#[trigger] clusters[k]).name@),
            ),
    ensures
        kind_names_complaint(prefix, clusters, i) is None,
    decreases clusters.len() - i,
{
    if i < clusters.len() {
        lemma_no_kind_name_complaint(prefix, clusters, i + 1);
        assert(is_docker_name(kind_name_of(prefix, clusters[i].name@)));
    }
}

proof fn lemma_no_node_complaint(clusters: Seq<ClusterSpec>, i: int)
    requires
        0 <= i <= clusters.len(),
        forall|k: int|
            0 <= k < clusters.len() ==> cluster_node_complaint(#[trigger] clusters[k]) is None,
    ensures
        cluster_nodes_complaint(clusters, i) is None,
    decreases clusters.len() - i,
{
    if i < clusters.len() {
        lemma_no_node_complaint(clusters, i + 1);
    }
}

proof fn lemma_no_port_complaint(clusters: Seq<ClusterSpec>, i: int)
    requires
        0 <= i <= clusters.len(),
        forall|k: int|
            0 <= k < clusters.len() ==> ports_of_cluster_complaint(#[trigger] clusters[k], 0)
                is None,
    ensures
        cluster_ports_complaint(clusters, i) is None,
    decreases clusters.len() - i,
{
    if i < clusters.len() {
        lemma_no_port_complaint(clusters, i + 1);
    }
}

proof fn lemma_no_reference_complaint(
    clusters: Seq<ClusterSpec>,
    stacks: Seq<(Seq<char>, StackSpec)>,
    i: int,
)
    requires
        0 <= i <= clusters.len(),
        forall|k: int|
            0 <= k < clusters.len() ==> stack_refs_complaint(#[trigger] clusters[k], stacks, 0)
                is None,
    ensures
        cluster_stack_refs_complaint(clusters, stacks, i) is None,
    decreases clusters.len() - i,
{
    if i < clusters.len() {
        lemma_no_reference_complaint(clusters, stacks, i + 1);
    }
}

proof fn lemma_clusters_reordered(
    prefix: Seq<char>,
    stacks: Seq<(Seq<char>, StackSpec)>,
    a: Seq<ClusterSpec>,
    b: Seq<ClusterSpec>,
)
    requires
        is_reordering(a, b),
        cluster_names_complaint(a, 0) is None,
        kind_names_complaint(prefix, a, 0) is None,
        cluster_nodes_complaint(a, 0) is None,
        cluster_ports_complaint(a, 0) is None,
        cluster_stack_refs_complaint(a, stacks, 0) is None,
    ensures
        cluster_names_complaint(b, 0) is None,
        kind_names_complaint(prefix, b, 0) is None,
        cluster_nodes_complaint(b, 0) is None,
        cluster_ports_complaint(b, 0) is None,
        cluster_stack_refs_complaint(b, stacks, 0) is None,
{
    let from = choose|from: Seq<int>| reorders(a, b, from);
    lemma_cluster_names(a, 0);
    lemma_kind_names(prefix, a, 0);
    lemma_cluster_nodes(a, 0);
    lemma_cluster_ports(a, 0);
    lemma_cluster_stack_refs(a, stacks, 0);
    assert forall|j: int, k: int| 0 <= j < k < b.len() implies (#[trigger] b[j]).name@ != (
    #[trigger] b[k]).name@ by {
        let (x, y) = (from[j], from[k]);
        assert(x != y);
        if x < y {
            assert(a[x].name@ != a[y].name@);
        } else {
            assert(a[y].name@ != a[x].name@);
        }
    }
    assert forall|k: int| 0 <= k < b.len() implies b[k] == a[#[trigger] from[k]] && 0 <= from[k]
        < a.len() by {}
    assert forall|k: int| 0 <= k < b.len() implies is_dns_label((#[trigger] b[k]).name@)
        && is_docker_name(kind_name_of(prefix, b[k].name@)) && cluster_node_complaint(b[k]) is None
        && ports_of_cluster_complaint(b[k], 0) is None && stack_refs_complaint(b[k], stacks, 0)
        is None by {
        let x = from[k];
        assert(b[k] == a[x]);
        assert(is_dns_label(a[x].name@));
    }
    lemma_no_name_complaint(b, 0);
    lemma_no_kind_name_complaint(prefix, b, 0);
    lemma_no_node_complaint(b, 0);
    lemma_no_port_complaint(b, 0);
    lemma_no_reference_complaint(b, stacks, 0);
}

// ---------------------------------------------------------------
// Services
// ---------------------------------------------------------------

/// True when no two services of a list share a name.
pub open spec fn names_distinct(services: Seq<ServiceSpec>) -> bool {
    forall|j: int, k: int|
        0 <= j < services.len() && 0 <= k < services.len() && j != k ==> (
        #[trigger] services[j]).name@ != (#[trigger] services[k]).name@
}

proof fn lemma_no_service_name_complaint(services: Seq<ServiceSpec>, i: int)
    requires
        0 <= i <= services.len(),
        forall|k: int| 0 <= k < services.len() ==> is_dns_label((#[trigger] services[k]).name@),
        names_distinct(services),
    ensures
        service_names_complaint(services, i) is None,
    decreases services.len() - i,
{
    if i < services.len() {
        lemma_no_service_name_complaint(services, i + 1);
        assert(is_dns_label(services[i].name@));
    }
}

proof fn lemma_no_service_complaint(services: Seq<ServiceSpec>, i: int)
    requires
        0 <= i <= services.len(),
        forall|k: int| 0 <= k < services.len() ==> service_complaint(#[trigger] services[k]) is None,
    ensures
        services_complaint(services, i) is None,
    decreases services.len() - i,
{
    if i < services.len() {
        lemma_no_service_complaint(services, i + 1);
    }
}

proof fn lemma_not_attached(services: Seq<ServiceSpec>, i: int)
    requires
        0 <= i <= services.len(),
        forall|k: int|
            0 <= k < services.len() ==> (#[trigger] services[k]).network
                != NetworkMode::Environment,
    ensures
        attached_complaint(services, i) is None,
    decreases services.len() - i,
{
    if i < services.len() {
        lemma_not_attached(services, i + 1);
    }
}

proof fn lemma_no_dep_complaint_of(services: Seq<ServiceSpec>, i: int, k: int)
    requires
        0 <= k <= services[i].depends_on@.len(),
        forall|m: int|
            0 <= m < services[i].depends_on@.len() ==> (#[trigger] services[i].depends_on@[m])@
                != services[i].name@ && provider(services, services[i].depends_on@[m]@) is Some,
    ensures
        deps_of_complaint(services, i, k) is None,
    decreases services[i].depends_on@.len() - k,
{
    if k < services[i].depends_on@.len() {
        lemma_no_dep_complaint_of(services, i, k + 1);
        assert(services[i].depends_on@[k]@ != services[i].name@);
    }
}

proof fn lemma_no_dep_complaint(services: Seq<ServiceSpec>, i: int)
    requires
        0 <= i <= services.len(),
        forall|k: int|
            #![trigger services[k]]
            0 <= k < services.len() ==> deps_of_complaint(services, k, 0) is None,
    ensures
        service_deps_complaint(services, i) is None,
    decreases services.len() - i,
{
    if i < services.len() {
        lemma_no_dep_complaint(services, i + 1);
        assert(services[i] == services[i]);
    }
}

proof fn lemma_no_auto_complaint_of(services: Seq<ServiceSpec>, i: int, k: int)
    requires
        0 <= k <= services[i].depends_on@.len(),
        forall|m: int|
            0 <= m < services[i].depends_on@.len() ==> (provider(
                services,
                (#[trigger] services[i].depends_on@[m])@,
            ) matches Some(j) ==> services[j].auto_start),
    ensures
        auto_deps_of_complaint(services, i, k) is None,
    decreases services[i].depends_on@.len() - k,
{
    if k < services[i].depends_on@.len() {
        lemma_no_auto_complaint_of(services, i, k + 1);
        let dep = services[i].depends_on@[k]@;
        assert(provider(services, dep) matches Some(j) ==> services[j].auto_start);
    }
}

proof fn lemma_no_auto_complaint(services: Seq<ServiceSpec>, i: int)
    requires
        0 <= i <= services.len(),
        forall|k: int|
            0 <= k < services.len() && (#[trigger] services[k]).auto_start
                ==> auto_deps_of_complaint(services, k, 0) is None,
    ensures
        auto_start_complaint(services, i) is None,
    decreases services.len() - i,
{
    if i < services.len() {
        lemma_no_auto_complaint(services, i + 1);
    }
}

proof fn lemma_provider_reordered(
    a: Seq<ServiceSpec>,
    b: Seq<ServiceSpec>,
    from: Seq<int>,
    name: Seq<char>,
)
    requires
        reorders(a, b, from),
        names_distinct(a),
    ensures
        match provider(b, name) {
            Some(j) => 0 <= j < b.len() && provider(a, name) == Some(from[j]),
            None => provider(a, name) is None,
        },
{
    lemma_provider(a, name);
    lemma_provider(b, name);
    match provider(b, name) {
        Some(j) => {
            assert(b[j] == a[from[j]]);
            let k = provider(a, name);
            assert(k is Some);
            if k->0 != from[j] {
                assert(a[k->0].name@ != a[from[j]].name@);
            }
        },
        None => {
            if let Some(k) = provider(a, name) {
                lemma_covers(a, b, from, k);
                let i = choose|i: int| 0 <= i < b.len() && #[trigger] from[i] == k;
                assert(b[i] == a[from[i]]);
                assert(b[i].name@ == name);
            }
        },
    }
}

proof fn lemma_depends_reordered(
    a: Seq<ServiceSpec>,
    b: Seq<ServiceSpec>,
    from: Seq<int>,
    i: int,
    j: int,
)
    requires
        reorders(a, b, from),
        names_distinct(a),
        depends(b, i, j),
    ensures
        0 <= j < b.len(),
        depends(a, from[i], from[j]),
{
    let m = choose|m: int|
        0 <= m < b[i].depends_on@.len() && provider(b, (#[trigger] b[i].depends_on@[m])@) == Some(
            j,
        );
    let dep = b[i].depends_on@[m]@;
    lemma_provider_reordered(a, b, from, dep);
    assert(b[i] == a[from[i]]);
    assert(provider(a, a[from[i]].depends_on@[m]@) == Some(from[j]));
}

proof fn lemma_cycle_reordered(a: Seq<ServiceSpec>, b: Seq<ServiceSpec>, from: Seq<int>)
    requires
        reorders(a, b, from),
        names_distinct(a),
        has_dep_cycle(b),
    ensures
        has_dep_cycle(a),
{
    let path = choose|path: Seq<int>| is_dep_cycle(b, path);
    let mapped = Seq::new(path.len(), |i: int| from[path[i]]);
    assert forall|i: int| 0 <= i < mapped.len() - 1 implies depends(
        a,
        mapped[i + 1],
        #[trigger] mapped[i],
    ) by {
        assert(depends(b, path[i + 1], path[i]));
        lemma_depends_reordered(a, b, from, path[i + 1], path[i]);
    }
    assert(is_dep_cycle(a, mapped));
}

proof fn lemma_deps_reordered(a: Seq<ServiceSpec>, b: Seq<ServiceSpec>, from: Seq<int>, k: int)
    requires
        reorders(a, b, from),
        names_distinct(a),
        0 <= k < b.len(),
        deps_of_complaint(a, from[k], 0) is None,
        a[from[k]].auto_start ==> auto_deps_of_complaint(a, from[k], 0) is None,
    ensures
        deps_of_complaint(b, k, 0) is None,
        b[k].auto_start ==> auto_deps_of_complaint(b, k, 0) is None,
{
    let x = from[k];
    assert(b[k] == a[x]);
    lemma_deps_of(a, x, 0);
    assert forall|m: int| 0 <= m < b[k].depends_on@.len() implies (
    #[trigger] b[k].depends_on@[m])@ != b[k].name@ && provider(b, b[k].depends_on@[m]@)
        is Some by {
        assert(a[x].depends_on@[m]@ != a[x].name@);
        lemma_provider_reordered(a, b, from, b[k].depends_on@[m]@);
    }
    lemma_no_dep_complaint_of(b, k, 0);
    if b[k].auto_start {
        lemma_auto_deps_of(a, x, 0);
        assert forall|m: int| 0 <= m < b[k].depends_on@.len() implies (provider(
            b,
            (#[trigger] b[k].depends_on@[m])@,
        ) matches Some(j) ==> b[j].auto_start) by {
            let dep = a[x].depends_on@[m]@;
            lemma_provider_reordered(a, b, from, dep);
            if let Some(j) = provider(b, dep) {
                assert(b[j] == a[from[j]]);
            }
        }
        lemma_no_auto_complaint_of(b, k, 0);
    }
}

proof fn lemma_services_reordered(a: Seq<ServiceSpec>, b: Seq<ServiceSpec>)
    requires
        is_reordering(a, b),
        service_names_complaint(a, 0) is None,
        services_complaint(a, 0) is None,
        service_deps_complaint(a, 0) is None,
        auto_start_complaint(a, 0) is None,
        !has_dep_cycle(a),
    ensures
        service_names_complaint(b, 0) is None,
        services_complaint(b, 0) is None,
        service_deps_complaint(b, 0) is None,
        auto_start_complaint(b, 0) is None,
        !has_dep_cycle(b),
        attached_complaint(a, 0) is None ==> attached_complaint(b, 0) is None,
{
    let from = choose|from: Seq<int>| reorders(a, b, from);
    lemma_service_names(a, 0);
    lemma_services(a, 0);
    lemma_service_deps(a, 0);
    lemma_auto_start(a, 0);
    assert(names_distinct(a)) by {
        assert forall|j: int, k: int|
            0 <= j < a.len() && 0 <= k < a.len() && j != k implies (#[trigger] a[j]).name@ != (
        #[trigger] a[k]).name@ by {
            if j < k {
                assert(a[j].name@ != a[k].name@);
            } else {
                assert(a[k].name@ != a[j].name@);
            }
        }
    }
    assert(names_distinct(b)) by {
        assert forall|j: int, k: int|
            0 <= j < b.len() && 0 <= k < b.len() && j != k implies (#[trigger] b[j]).name@ != (
        #[trigger] b[k]).name@ by {
            assert(from[j] != from[k]);
            assert(b[j] == a[from[j]] && b[k] == a[from[k]]);
        }
    }
    assert forall|k: int| 0 <= k < b.len() implies is_dns_label((#[trigger] b[k]).name@)
        && service_complaint(b[k]) is None && deps_of_complaint(b, k, 0) is None && (
    b[k].auto_start ==> auto_deps_of_complaint(b, k, 0) is None) by {
        let x = from[k];
        assert(b[k] == a[x]);
        assert(is_dns_label(a[x].name@));
        lemma_deps_reordered(a, b, from, k);
    }
    lemma_no_service_name_complaint(b, 0);
    lemma_no_service_complaint(b, 0);
    lemma_no_dep_complaint(b, 0);
    lemma_no_auto_complaint(b, 0);
    if has_dep_cycle(b) {
        lemma_cycle_reordered(a, b, from);
    }
    if attached_complaint(a, 0) is None {
        lemma_attached(a, 0);
        assert forall|k: int| 0 <= k < b.len() implies (#[trigger] b[k]).network
            != NetworkMode::Environment by {
            assert(b[k] == a[from[k]]);
        }
        lemma_not_attached(b, 0);
    }
}

// ---------------------------------------------------------------
// Host bindings
// ---------------------------------------------------------------

/// A port mapping of a configuration: of a service or a cluster, by the
/// positions of its owner and of itself.
pub struct PortKey {
    /// Whether a service owns the mapping.
    pub of_service: bool,
    /// Position of the owner.
    pub owner: int,
    /// Position among the mappings of the owner.
    pub port: int,
}

/// A port mapping by its owner and the positions.
pub open spec fn port_key(of_service: bool, owner: int, port: int) -> PortKey {
    PortKey { of_service, owner, port }
}

/// True when a configuration has the mapping.
pub open spec fn has_port(config: ForgeConfig, key: PortKey) -> bool {
    if key.of_service {
        0 <= key.owner < config.spec.services@.len() && 0 <= key.port
            < config.spec.services@[key.owner].ports@.len()
    } else {
        0 <= key.owner < config.spec.clusters@.len() && 0 <= key.port
            < config.spec.clusters@[key.owner].ports@.len()
    }
}

/// The mapping of a configuration.
pub open spec fn port_of(config: ForgeConfig, key: PortKey) -> PortMapping {
    if key.of_service {
        config.spec.services@[key.owner].ports@[key.port]
    } else {
        config.spec.clusters@[key.owner].ports@[key.port]
    }
}

spec fn cluster_keys(clusters: Seq<ClusterSpec>) -> Seq<PortKey>
    decreases clusters.len(),
{
    if clusters.len() == 0 {
        Seq::empty()
    } else {
        cluster_keys(clusters.drop_last()) + Seq::new(
            clusters.last().ports@.len(),
            |i: int| PortKey { of_service: false, owner: clusters.len() - 1, port: i },
        )
    }
}

spec fn service_keys(services: Seq<ServiceSpec>) -> Seq<PortKey>
    decreases services.len(),
{
    if services.len() == 0 {
        Seq::empty()
    } else {
        service_keys(services.drop_last()) + Seq::new(
            services.last().ports@.len(),
            |i: int| PortKey { of_service: true, owner: services.len() - 1, port: i },
        )
    }
}

proof fn lemma_cluster_keys(clusters: Seq<ClusterSpec>)
    ensures
        cluster_keys(clusters).len() == cluster_claims(clusters).len(),
        cluster_keys(clusters).no_duplicates(),
        forall|k: int|
            0 <= k < cluster_keys(clusters).len() ==> {
                let key = #[trigger] cluster_keys(clusters)[k];
                &&& !key.of_service
                &&& 0 <= key.owner < clusters.len()
                &&& 0 <= key.port < clusters[key.owner].ports@.len()
                &&& cluster_claims(clusters)[k].port == clusters[key.owner].ports@[key.port]
            },
        forall|c: int, p: int|
            0 <= c < clusters.len() && 0 <= p < clusters[c].ports@.len() ==> cluster_keys(
                clusters,
            ).contains(#[trigger] port_key(false, c, p)),
    decreases clusters.len(),
{
    if clusters.len() > 0 {
        let rest = clusters.drop_last();
        lemma_cluster_keys(rest);
        let keys = cluster_keys(clusters);
        let before = cluster_keys(rest);
        let c0 = clusters.len() - 1;
        assert forall|k: int| 0 <= k < keys.len() implies {
            let key = #[trigger] keys[k];
            &&& !key.of_service
            &&& 0 <= key.owner < clusters.len()
            &&& 0 <= key.port < clusters[key.owner].ports@.len()
            &&& cluster_claims(clusters)[k].port == clusters[key.owner].ports@[key.port]
        } by {
            if k < before.len() {
                assert(keys[k] == before[k]);
                assert(rest[before[k].owner] == clusters[before[k].owner]);
            }
        }
        assert forall|i: int, j: int|
            0 <= i < keys.len() && 0 <= j < keys.len() && i != j implies keys[i] != keys[j] by {
            if i < before.len() && j < before.len() {
                assert(keys[i] == before[i] && keys[j] == before[j]);
            } else if i < before.len() {
                assert(keys[i] == before[i]);
                assert(before[i].owner < c0);
            } else if j < before.len() {
                assert(keys[j] == before[j]);
                assert(before[j].owner < c0);
            }
        }
        assert forall|c: int, p: int|
            0 <= c < clusters.len() && 0 <= p < clusters[c].ports@.len() implies keys.contains(
            #[trigger] port_key(false, c, p),
        ) by {
            let key = port_key(false, c, p);
            if c < c0 {
                assert(rest[c] == clusters[c]);
                assert(before.contains(key));
                let k = choose|k: int| 0 <= k < before.len() && before[k] == key;
                assert(keys[k] == key);
            } else {
                assert(keys[before.len() + p] == key);
            }
        }
    }
}

proof fn lemma_service_keys(services: Seq<ServiceSpec>)
    ensures
        service_keys(services).len() == service_claims(services).len(),
        service_keys(services).no_duplicates(),
        forall|k: int|
            0 <= k < service_keys(services).len() ==> {
                let key = #[trigger] service_keys(services)[k];
                &&& key.of_service
                &&& 0 <= key.owner < services.len()
                &&& 0 <= key.port < services[key.owner].ports@.len()
                &&& service_claims(services)[k].port == services[key.owner].ports@[key.port]
            },
        forall|c: int, p: int|
            0 <= c < services.len() && 0 <= p < services[c].ports@.len() ==> service_keys(
                services,
            ).contains(#[trigger] port_key(true, c, p)),
    decreases services.len(),
{
    if services.len() > 0 {
        let rest = services.drop_last();
        lemma_service_keys(rest);
        let keys = service_keys(services);
        let before = service_keys(rest);
        let c0 = services.len() - 1;
        assert forall|k: int| 0 <= k < keys.len() implies {
            let key = #[trigger] keys[k];
            &&& key.of_service
            &&& 0 <= key.owner < services.len()
            &&& 0 <= key.port < services[key.owner].ports@.len()
            &&& service_claims(services)[k].port == services[key.owner].ports@[key.port]
        } by {
            if k < before.len() {
                assert(keys[k] == before[k]);
                assert(rest[before[k].owner] == services[before[k].owner]);
            }
        }
        assert forall|i: int, j: int|
            0 <= i < keys.len() && 0 <= j < keys.len() && i != j implies keys[i] != keys[j] by {
            if i < before.len() && j < before.len() {
                assert(keys[i] == before[i] && keys[j] == before[j]);
            } else if i < before.len() {
                assert(keys[i] == before[i]);
                assert(before[i].owner < c0);
            } else if j < before.len() {
                assert(keys[j] == before[j]);
                assert(before[j].owner < c0);
            }
        }
        assert forall|c: int, p: int|
            0 <= c < services.len() && 0 <= p < services[c].ports@.len() implies keys.contains(
            #[trigger] port_key(true, c, p),
        ) by {
            let key = port_key(true, c, p);
            if c < c0 {
                assert(rest[c] == services[c]);
                assert(before.contains(key));
                let k = choose|k: int| 0 <= k < before.len() && before[k] == key;
                assert(keys[k] == key);
            } else {
                assert(keys[before.len() + p] == key);
            }
        }
    }
}

spec fn port_keys(config: ForgeConfig) -> Seq<PortKey> {
    cluster_keys(config.spec.clusters@) + service_keys(config.spec.services@)
}

proof fn lemma_port_keys(config: ForgeConfig)
    ensures
        port_keys(config).len() == all_claims(config).len(),
        port_keys(config).no_duplicates(),
        forall|k: int|
            0 <= k < port_keys(config).len() ==> has_port(config, #[trigger] port_keys(config)[k])
                && all_claims(config)[k].port == port_of(config, port_keys(config)[k]),
        forall|key: PortKey| #[trigger] has_port(config, key) ==> port_keys(config).contains(key),
{
    let of_clusters = cluster_keys(config.spec.clusters@);
    let of_services = service_keys(config.spec.services@);
    let keys = port_keys(config);
    lemma_cluster_keys(config.spec.clusters@);
    lemma_service_keys(config.spec.services@);
    let n = of_clusters.len() as int;
    assert forall|k: int| 0 <= k < keys.len() implies has_port(config, #[trigger] keys[k])
        && all_claims(config)[k].port == port_of(config, keys[k]) by {
        if k < n {
            assert(keys[k] == of_clusters[k]);
        } else {
            assert(keys[k] == of_services[k - n]);
        }
    }
    assert forall|i: int, j: int|
        0 <= i < keys.len() && 0 <= j < keys.len() && i != j implies keys[i] != keys[j] by {
        if i < n {
            assert(keys[i] == of_clusters[i]);
        } else {
            assert(keys[i] == of_services[i - n]);
        }
        if j < n {
            assert(keys[j] == of_clusters[j]);
        } else {
            assert(keys[j] == of_services[j - n]);
        }
    }
    assert forall|key: PortKey| #[trigger] has_port(config, key) implies keys.contains(key) by {
        if key.of_service {
            assert(of_services.contains(port_key(true, key.owner, key.port)));
            let k = choose|k: int| 0 <= k < of_services.len() && of_services[k] == key;
            assert(keys[n + k] == key);
        } else {
            assert(of_clusters.contains(port_key(false, key.owner, key.port)));
            let k = choose|k: int| 0 <= k < of_clusters.len() && of_clusters[k] == key;
            assert(keys[k] == key);
        }
    }
}

/// The host bindings of a configuration are accepted exactly when no two of its
/// port mappings conflict, whatever the order in which they are listed.
pub proof fn law_bindings_are_accepted_in_any_order(config: ForgeConfig)
    ensures
        claims_complaint(all_claims(config), 0) is None <==> forall|x: PortKey, y: PortKey|
            #[trigger] has_port(config, x) && #[trigger] has_port(config, y) && x != y
                ==> !ports_conflict(port_of(config, x), port_of(config, y)),
{
    let claims = all_claims(config);
    let keys = port_keys(config);
    lemma_port_keys(config);
    lemma_accepted_claims_are_disjoint(claims, 0);
    if claims_complaint(claims, 0) is None {
        assert forall|x: PortKey, y: PortKey|
            #[trigger] has_port(config, x) && #[trigger] has_port(config, y) && x
                != y implies !ports_conflict(port_of(config, x), port_of(config, y)) by {
            let i = choose|i: int| 0 <= i < keys.len() && keys[i] == x;
            let j = choose|j: int| 0 <= j < keys.len() && keys[j] == y;
            assert(keys[i] == x && keys[j] == y);
            assert(claims[i].port == port_of(config, keys[i]));
            assert(claims[j].port == port_of(config, keys[j]));
            if i < j {
                assert(!ports_conflict(claims[i].port, claims[j].port));
            } else {
                assert(!ports_conflict(claims[j].port, claims[i].port));
            }
        }
    }
    if forall|x: PortKey, y: PortKey|
        #[trigger] has_port(config, x) && #[trigger] has_port(config, y) && x != y
            ==> !ports_conflict(port_of(config, x), port_of(config, y)) {
        assert forall|j: int, i: int| 0 <= j < i && 0 <= i < claims.len() implies !ports_conflict(
            (#[trigger] claims[j]).port,
            (#[trigger] claims[i]).port,
        ) by {
            assert(has_port(config, keys[j]) && has_port(config, keys[i]));
            assert(keys[j] != keys[i]);
        }
    }
}

proof fn lemma_bindings_reordered(a: ForgeConfig, b: ForgeConfig)
    requires
        is_reordering(a.spec.clusters@, b.spec.clusters@),
        is_reordering(a.spec.services@, b.spec.services@),
        claims_complaint(all_claims(a), 0) is None,
    ensures
        claims_complaint(all_claims(b), 0) is None,
{
    let c_from = choose|from: Seq<int>| reorders(a.spec.clusters@, b.spec.clusters@, from);
    let s_from = choose|from: Seq<int>| reorders(a.spec.services@, b.spec.services@, from);
    law_bindings_are_accepted_in_any_order(a);
    law_bindings_are_accepted_in_any_order(b);
    assert forall|x: PortKey, y: PortKey|
        #[trigger] has_port(b, x) && #[trigger] has_port(b, y) && x != y implies !ports_conflict(
        port_of(b, x),
        port_of(b, y),
    ) by {
        let x1 = PortKey {
            owner: if x.of_service {
                s_from[x.owner]
            } else {
                c_from[x.owner]
            },
            ..x
        };
        let y1 = PortKey {
            owner: if y.of_service {
                s_from[y.owner]
            } else {
                c_from[y.owner]
            },
            ..y
        };
        assert(has_port(a, x1) && port_of(a, x1) == port_of(b, x));
        assert(has_port(a, y1) && port_of(a, y1) == port_of(b, y));
        assert(x1 != y1);
    }
}

// ---------------------------------------------------------------
// Templates
// ---------------------------------------------------------------

proof fn lemma_templates_reordered(a: ForgeConfig, b: ForgeConfig)
    requires
        reordered(a, b),
        mentions_template(without_stacks(b)),
    ensures
        mentions_template(without_stacks(a)),
{
    let none = Seq::<(Seq<char>, StackSpec)>::empty();
    let root_a = without_stacks(a)->Object_0;
    let root_b = without_stacks(b)->Object_0;
    let i = choose|i: int|
        0 <= i < root_b.len() && (has_template_token((#[trigger] root_b[i]).0)
            || mentions_template(root_b[i].1));
    assert(root_a.len() == root_b.len());
    if i < 3 || has_template_token(root_b[i].0) {
        assert(root_a[i].0 == root_b[i].0);
        assert(i < 3 ==> root_a[i] == root_b[i]);
        assert(has_template_token(root_a[i].0) || mentions_template(root_a[i].1));
    } else {
        assert(root_b[3].1 == spec_json(b.spec, none));
        assert(root_a[3].1 == spec_json(a.spec, none));
        lemma_spec_templates_reordered(a, b);
        assert(mentions_template(root_a[3].1));
    }
}

proof fn lemma_spec_templates_reordered(a: ForgeConfig, b: ForgeConfig)
    requires
        reordered(a, b),
        mentions_template(spec_json(b.spec, Seq::<(Seq<char>, StackSpec)>::empty())),
    ensures
        mentions_template(spec_json(a.spec, Seq::<(Seq<char>, StackSpec)>::empty())),
{
    let none = Seq::<(Seq<char>, StackSpec)>::empty();
    let of_a = spec_json(a.spec, none)->Object_0;
    let of_b = spec_json(b.spec, none)->Object_0;
    let i = choose|i: int|
        0 <= i < of_b.len() && (has_template_token((#[trigger] of_b[i]).0) || mentions_template(
            of_b[i].1,
        ));
    assert(of_a.len() == of_b.len());
    assert(of_a[i].0 == of_b[i].0);
    if !has_template_token(of_b[i].0) {
        if i == 1 {
            let items = Seq::new(
                b.spec.clusters@.len(),
                |k: int| cluster_json(b.spec.clusters@[k]),
            );
            let same = Seq::new(
                a.spec.clusters@.len(),
                |k: int| cluster_json(a.spec.clusters@[k]),
            );
            assert(of_b[i].1 == cluster_list_json(b.spec.clusters@));
            assert(of_a[i].1 == cluster_list_json(a.spec.clusters@));
            lemma_items_reordered(a.spec.clusters@, b.spec.clusters@, same, items);
        } else if i == 4 {
            let items = Seq::new(
                b.spec.services@.len(),
                |k: int| service_json(b.spec.services@[k]),
            );
            let same = Seq::new(
                a.spec.services@.len(),
                |k: int| service_json(a.spec.services@[k]),
            );
            assert(of_b[i].1 == service_list_json(b.spec.services@));
            assert(of_a[i].1 == service_list_json(a.spec.services@));
            lemma_service_items_reordered(a.spec.services@, b.spec.services@, same, items);
        } else {
            assert(of_a[i] == of_b[i]);
        }
        assert(mentions_template(of_a[i].1));
    }
    assert(has_template_token(of_a[i].0) || mentions_template(of_a[i].1));
}

proof fn lemma_mentioned_in_list(items: Seq<JsonView>, k: int)
    requires
        0 <= k < items.len(),
        mentions_template(items[k]),
    ensures
        mentions_template(JsonView::Array(items)),
{
    let value = JsonView::Array(items);
    match value {
        JsonView::Array(list) => {
            assert(list[k] == items[k]);
            assert(mentions_template(list[k]));
            assert(mentions_template(value));
        },
        _ => {},
    }
}

proof fn lemma_items_reordered(
    a: Seq<ClusterSpec>,
    b: Seq<ClusterSpec>,
    of_a: Seq<JsonView>,
    of_b: Seq<JsonView>,
)
    requires
        is_reordering(a, b),
        of_a == Seq::new(a.len(), |k: int| cluster_json(a[k])),
        of_b == Seq::new(b.len(), |k: int| cluster_json(b[k])),
        mentions_template(JsonView::Array(of_b)),
    ensures
        mentions_template(JsonView::Array(of_a)),
{
    let from = choose|from: Seq<int>| reorders(a, b, from);
    let k = choose|k: int| 0 <= k < of_b.len() && mentions_template(#[trigger] of_b[k]);
    let x = from[k];
    assert(0 <= x < a.len() && b[k] == a[x]);
    assert(of_a[x] == of_b[k]);
    lemma_mentioned_in_list(of_a, x);
}

proof fn lemma_service_items_reordered(
    a: Seq<ServiceSpec>,
    b: Seq<ServiceSpec>,
    of_a: Seq<JsonView>,
    of_b: Seq<JsonView>,
)
    requires
        is_reordering(a, b),
        of_a == Seq::new(a.len(), |k: int| service_json(a[k])),
        of_b == Seq::new(b.len(), |k: int| service_json(b[k])),
        mentions_template(JsonView::Array(of_b)),
    ensures
        mentions_template(JsonView::Array(of_a)),
{
    let from = choose|from: Seq<int>| reorders(a, b, from);
    let k = choose|k: int| 0 <= k < of_b.len() && mentions_template(#[trigger] of_b[k]);
    let x = from[k];
    assert(0 <= x < a.len() && b[k] == a[x]);
    assert(of_a[x] == of_b[k]);
    lemma_mentioned_in_list(of_a, x);
}

// ---------------------------------------------------------------
// Acceptance
// ---------------------------------------------------------------

proof fn lemma_accepted_reordered(a: ForgeConfig, b: ForgeConfig)
    requires
        reordered(a, b),
        accepted(a),
    ensures
        accepted(b),
{
    lemma_clusters_reordered(
        a.spec.runtime.cluster_prefix@,
        a.spec.stacks@,
        a.spec.clusters@,
        b.spec.clusters@,
    );
    lemma_services_reordered(a.spec.services@, b.spec.services@);
    lemma_bindings_reordered(a, b);
    lemma_template_path_found(without_stacks(a), "$"@);
    lemma_template_path_found(without_stacks(b), "$"@);
    if mentions_template(without_stacks(b)) {
        lemma_templates_reordered(a, b);
    }
}

/// Whether validation accepts a configuration does not depend on the order in
/// which its clusters and services are listed.
pub proof fn law_acceptance_ignores_order(a: ForgeConfig, b: ForgeConfig)
    requires
        reordered(a, b),
    ensures
        accepted(a) <==> accepted(b),
{
    lemma_reordering_symmetric(a.spec.clusters@, b.spec.clusters@);
    lemma_reordering_symmetric(a.spec.services@, b.spec.services@);
    if accepted(a) {
        lemma_accepted_reordered(a, b);
    }
    if accepted(b) {
        lemma_accepted_reordered(b, a);
    }
}

} // verus!
