//! What holds of every configuration that validation accepts.

use vstd::prelude::*;
use crate::config::validate::clusters::{
    cluster_names_complaint, cluster_node_complaint, cluster_nodes_complaint,
    cluster_port_complaint, cluster_ports_complaint, cluster_stack_refs_complaint,
    kind_names_complaint, kind_protocol, ports_of_cluster_complaint, referenced_before,
    stack_refs_complaint, MAX_CONTROL_PLANES, MAX_WORKERS,
};
use crate::config::validate::deps::{
    auto_deps_of_complaint, auto_start_complaint, depends, deps_of_complaint, has_dep_cycle,
    lemma_provider, provider, service_deps_complaint,
};
use crate::config::validate::fields::{
    duration_complaint, escapes_root, full_field_template, MAX_DURATION_SECS,
};
use crate::config::validate::names::{is_dns_label, is_dns_zone, is_docker_name};
use crate::config::validate::ports::{
    all_claims, cluster_claims, lemma_accepted_claims_are_disjoint, ports_conflict, service_claims,
};
use crate::config::validate::services::{
    health_port_complaint, service_complaint, service_context, service_health_complaint,
    service_names_complaint, service_ports_complaint, service_volumes_complaint,
    services_complaint,
};
use crate::config::validate::steps::{step_complaint, steps_complaint};
use crate::config::validate::templates::{
    lemma_template_path_found, mentions_template, without_stacks,
};
use crate::config::validate::{
    attached_complaint, forwarding_complaint, forwards_dns, stack_names_complaint,
    stack_steps_complaint, validation_complaint, wants_cross_cluster,
};
use crate::config::{
    ClusterSpec, ForgeConfig, NetworkMode, PortMapping, RuntimeProvider, ServiceSpec, StackSpec,
    StepSpec, API_VERSION, KIND,
};
use crate::ip::ip_value;
use crate::naming::{kind_name_of, network_name_of};
use crate::strmap::has_key;
use crate::numeral::unsigned_value;
use crate::text::{all_in, before_suffix, begins_with, byte_len, first_is, CharClass};

verus! {

/// True when validation accepts a configuration.
pub open spec fn accepted(config: ForgeConfig) -> bool {
    validation_complaint(config) is None
}

// ---------------------------------------------------------------
// Names
// ---------------------------------------------------------------

pub(crate) proof fn lemma_cluster_names(clusters: Seq<ClusterSpec>, i: int)
    requires
        0 <= i <= clusters.len(),
        cluster_names_complaint(clusters, i) is None,
    ensures
        forall|k: int| i <= k < clusters.len() ==> is_dns_label((#[trigger] clusters[k]).name@),
        forall|j: int, k: int|
            0 <= j < k && i <= k < clusters.len() ==> (#[trigger] clusters[j]).name@ != (
            #[trigger] clusters[k]).name@,
    decreases clusters.len() - i,
{
    if i < clusters.len() {
        lemma_cluster_names(clusters, i + 1);
    }
}

pub(crate) proof fn lemma_service_names(services: Seq<ServiceSpec>, i: int)
    requires
        0 <= i <= services.len(),
        service_names_complaint(services, i) is None,
    ensures
        forall|k: int| i <= k < services.len() ==> is_dns_label((#[trigger] services[k]).name@),
        forall|j: int, k: int|
            0 <= j < k && i <= k < services.len() ==> (#[trigger] services[j]).name@ != (
            #[trigger] services[k]).name@,
    decreases services.len() - i,
{
    if i < services.len() {
        lemma_service_names(services, i + 1);
    }
}

proof fn lemma_stack_names(stacks: Seq<(Seq<char>, StackSpec)>, i: int)
    requires
        0 <= i <= stacks.len(),
        stack_names_complaint(stacks, i) is None,
    ensures
        forall|k: int| i <= k < stacks.len() ==> is_dns_label((#[trigger] stacks[k]).0),
    decreases stacks.len() - i,
{
    if i < stacks.len() {
        lemma_stack_names(stacks, i + 1);
    }
}

pub(crate) proof fn lemma_kind_names(prefix: Seq<char>, clusters: Seq<ClusterSpec>, i: int)
    requires
        0 <= i <= clusters.len(),
        kind_names_complaint(prefix, clusters, i) is None,
    ensures
        forall|k: int|
            i <= k < clusters.len() ==> is_docker_name(
                kind_name_of(prefix, (#[trigger] clusters[k]).name@),
            ),
    decreases clusters.len() - i,
{
    if i < clusters.len() {
        lemma_kind_names(prefix, clusters, i + 1);
    }
}

/// In an accepted configuration the environment, every cluster, every service
/// and every stack is named by a DNS label; no two clusters and no two
/// services share a name; and the derived KIND and network names are names
/// that the container runtime takes.
pub proof fn law_names_are_valid_and_unique(config: ForgeConfig)
    requires
        accepted(config),
    ensures
        is_dns_label(config.metadata.name@),
        forall|k: int|
            0 <= k < config.spec.clusters@.len() ==> is_dns_label(
                (#[trigger] config.spec.clusters@[k]).name@,
            ) && is_docker_name(
                kind_name_of(
                    config.spec.runtime.cluster_prefix@,
                    config.spec.clusters@[k].name@,
                ),
            ),
        forall|k: int|
            0 <= k < config.spec.services@.len() ==> is_dns_label(
                (#[trigger] config.spec.services@[k]).name@,
            ),
        forall|k: int|
            0 <= k < config.spec.stacks@.len() ==> is_dns_label(
                (#[trigger] config.spec.stacks@[k]).0,
            ),
        forall|j: int, k: int|
            0 <= j < k < config.spec.clusters@.len() ==> (#[trigger] config.spec.clusters@[j]).name@
                != (#[trigger] config.spec.clusters@[k]).name@,
        forall|j: int, k: int|
            0 <= j < k < config.spec.services@.len() ==> (#[trigger] config.spec.services@[j]).name@
                != (#[trigger] config.spec.services@[k]).name@,
        wants_cross_cluster(config.spec.network) ==> is_docker_name(
            network_name_of(config.metadata.name@),
        ),
{
    lemma_cluster_names(config.spec.clusters@, 0);
    lemma_kind_names(config.spec.runtime.cluster_prefix@, config.spec.clusters@, 0);
    lemma_service_names(config.spec.services@, 0);
    lemma_stack_names(config.spec.stacks@, 0);
}

// ---------------------------------------------------------------
// Clusters
// ---------------------------------------------------------------

pub(crate) proof fn lemma_cluster_nodes(clusters: Seq<ClusterSpec>, i: int)
    requires
        0 <= i <= clusters.len(),
        cluster_nodes_complaint(clusters, i) is None,
    ensures
        forall|k: int|
            i <= k < clusters.len() ==> cluster_node_complaint(#[trigger] clusters[k]) is None,
    decreases clusters.len() - i,
{
    if i < clusters.len() {
        lemma_cluster_nodes(clusters, i + 1);
    }
}

/// Every cluster of an accepted configuration has at least one and at most
/// [`MAX_CONTROL_PLANES`] control planes, and at most [`MAX_WORKERS`] workers.
pub proof fn law_node_counts_are_bounded(config: ForgeConfig, k: int)
    requires
        accepted(config),
        0 <= k < config.spec.clusters@.len(),
    ensures
        1 <= config.spec.clusters@[k].nodes.control_planes <= MAX_CONTROL_PLANES,
        config.spec.clusters@[k].nodes.workers <= MAX_WORKERS,
{
    lemma_cluster_nodes(config.spec.clusters@, 0);
    assert(cluster_node_complaint(config.spec.clusters@[k]) is None);
}

proof fn lemma_stack_refs(cluster: ClusterSpec, stacks: Seq<(Seq<char>, StackSpec)>, j: int)
    requires
        0 <= j <= cluster.stacks@.len(),
        stack_refs_complaint(cluster, stacks, j) is None,
    ensures
        forall|k: int|
            j <= k < cluster.stacks@.len() ==> has_key(stacks, (#[trigger] cluster.stacks@[k])@)
                && !referenced_before(cluster.stacks@, k),
    decreases cluster.stacks@.len() - j,
{
    if j < cluster.stacks@.len() {
        lemma_stack_refs(cluster, stacks, j + 1);
    }
}

pub(crate) proof fn lemma_cluster_stack_refs(
    clusters: Seq<ClusterSpec>,
    stacks: Seq<(Seq<char>, StackSpec)>,
    i: int,
)
    requires
        0 <= i <= clusters.len(),
        cluster_stack_refs_complaint(clusters, stacks, i) is None,
    ensures
        forall|k: int|
            i <= k < clusters.len() ==> stack_refs_complaint(#[trigger] clusters[k], stacks, 0)
                is None,
    decreases clusters.len() - i,
{
    if i < clusters.len() {
        lemma_cluster_stack_refs(clusters, stacks, i + 1);
    }
}

/// Every stack that a cluster of an accepted configuration refers to is
/// configured, and a cluster refers to no stack twice.
pub proof fn law_stack_references_resolve(config: ForgeConfig, c: int)
    requires
        accepted(config),
        0 <= c < config.spec.clusters@.len(),
    ensures
        forall|k: int|
            0 <= k < config.spec.clusters@[c].stacks@.len() ==> has_key(
                config.spec.stacks@,
                (#[trigger] config.spec.clusters@[c].stacks@[k])@,
            ),
        forall|j: int, k: int|
            0 <= j < k < config.spec.clusters@[c].stacks@.len() ==> (
            #[trigger] config.spec.clusters@[c].stacks@[j])@ != (
            #[trigger] config.spec.clusters@[c].stacks@[k])@,
{
    let cluster = config.spec.clusters@[c];
    lemma_cluster_stack_refs(config.spec.clusters@, config.spec.stacks@, 0);
    assert(stack_refs_complaint(cluster, config.spec.stacks@, 0) is None);
    lemma_stack_refs(cluster, config.spec.stacks@, 0);
    assert forall|j: int, k: int| 0 <= j < k < cluster.stacks@.len() implies (
    #[trigger] cluster.stacks@[j])@ != (#[trigger] cluster.stacks@[k])@ by {
        assert(!referenced_before(cluster.stacks@, k));
    }
}

// ---------------------------------------------------------------
// Services
// ---------------------------------------------------------------

pub(crate) proof fn lemma_services(services: Seq<ServiceSpec>, i: int)
    requires
        0 <= i <= services.len(),
        services_complaint(services, i) is None,
    ensures
        forall|k: int| i <= k < services.len() ==> service_complaint(#[trigger] services[k]) is None,
    decreases services.len() - i,
{
    if i < services.len() {
        lemma_services(services, i + 1);
    }
}

proof fn lemma_service_volumes(svc: ServiceSpec, i: int)
    requires
        0 <= i <= svc.volumes@.len(),
        service_volumes_complaint(svc, i) is None,
    ensures
        forall|k: int|
            i <= k < svc.volumes@.len() ==> !escapes_root((#[trigger] svc.volumes@[k]).source@),
    decreases svc.volumes@.len() - i,
{
    if i < svc.volumes@.len() {
        lemma_service_volumes(svc, i + 1);
    }
}

/// No volume of a service of an accepted configuration is mounted from
/// outside the configuration root.
pub proof fn law_volumes_stay_under_the_root(config: ForgeConfig, s: int, v: int)
    requires
        accepted(config),
        0 <= s < config.spec.services@.len(),
        0 <= v < config.spec.services@[s].volumes@.len(),
    ensures
        !escapes_root(config.spec.services@[s].volumes@[v].source@),
{
    lemma_services(config.spec.services@, 0);
    assert(service_complaint(config.spec.services@[s]) is None);
    lemma_service_volumes(config.spec.services@[s], 0);
}

pub(crate) proof fn lemma_deps_of(services: Seq<ServiceSpec>, i: int, k: int)
    requires
        0 <= k <= services[i].depends_on@.len(),
        deps_of_complaint(services, i, k) is None,
    ensures
        forall|m: int|
            k <= m < services[i].depends_on@.len() ==> (#[trigger] services[i].depends_on@[m])@
                != services[i].name@ && provider(services, services[i].depends_on@[m]@) is Some,
    decreases services[i].depends_on@.len() - k,
{
    if k < services[i].depends_on@.len() {
        lemma_deps_of(services, i, k + 1);
    }
}

pub(crate) proof fn lemma_service_deps(services: Seq<ServiceSpec>, i: int)
    requires
        0 <= i <= services.len(),
        service_deps_complaint(services, i) is None,
    ensures
        forall|k: int|
            #![trigger services[k]]
            i <= k < services.len() ==> deps_of_complaint(services, k, 0) is None,
    decreases services.len() - i,
{
    if i < services.len() {
        lemma_service_deps(services, i + 1);
    }
}

/// Every dependency of a service of an accepted configuration is the name of
/// another configured service.
pub proof fn law_dependencies_resolve(config: ForgeConfig, s: int, d: int)
    requires
        accepted(config),
        0 <= s < config.spec.services@.len(),
        0 <= d < config.spec.services@[s].depends_on@.len(),
    ensures
        exists|j: int|
            0 <= j < config.spec.services@.len() && j != s && (
            #[trigger] config.spec.services@[j]).name@
                == config.spec.services@[s].depends_on@[d]@,
{
    let services = config.spec.services@;
    let dep = services[s].depends_on@[d]@;
    lemma_service_deps(services, 0);
    assert(deps_of_complaint(services, s, 0) is None);
    lemma_deps_of(services, s, 0);
    lemma_provider(services, dep);
    let j = provider(services, dep)->0;
    assert(services[j].name@ == dep);
}

/// No service of an accepted configuration depends on itself, directly or
/// through other services.
pub proof fn law_dependencies_are_acyclic(config: ForgeConfig)
    requires
        accepted(config),
    ensures
        !has_dep_cycle(config.spec.services@),
{
}

pub(crate) proof fn lemma_auto_deps_of(services: Seq<ServiceSpec>, i: int, k: int)
    requires
        0 <= k <= services[i].depends_on@.len(),
        auto_deps_of_complaint(services, i, k) is None,
    ensures
        forall|m: int|
            k <= m < services[i].depends_on@.len() ==> (provider(
                services,
                (#[trigger] services[i].depends_on@[m])@,
            ) matches Some(j) ==> services[j].auto_start),
    decreases services[i].depends_on@.len() - k,
{
    if k < services[i].depends_on@.len() {
        lemma_auto_deps_of(services, i, k + 1);
    }
}

pub(crate) proof fn lemma_auto_start(services: Seq<ServiceSpec>, i: int)
    requires
        0 <= i <= services.len(),
        auto_start_complaint(services, i) is None,
    ensures
        forall|k: int|
            i <= k < services.len() && (#[trigger] services[k]).auto_start
                ==> auto_deps_of_complaint(services, k, 0) is None,
    decreases services.len() - i,
{
    if i < services.len() {
        lemma_auto_start(services, i + 1);
    }
}

/// What an automatically started service of an accepted configuration depends
/// on is started automatically too.
pub proof fn law_auto_start_is_closed(config: ForgeConfig, s: int, j: int)
    requires
        accepted(config),
        0 <= s < config.spec.services@.len(),
        config.spec.services@[s].auto_start,
        depends(config.spec.services@, s, j),
    ensures
        config.spec.services@[j].auto_start,
{
    let services = config.spec.services@;
    lemma_auto_start(services, 0);
    assert(auto_deps_of_complaint(services, s, 0) is None) by {
        assert(services[s].auto_start);
    }
    lemma_auto_deps_of(services, s, 0);
    let m = choose|m: int|
        0 <= m < services[s].depends_on@.len() && provider(
            services,
            (#[trigger] services[s].depends_on@[m])@,
        ) == Some(j);
    assert(provider(services, services[s].depends_on@[m]@) == Some(j));
}

// ---------------------------------------------------------------
// Host bindings
// ---------------------------------------------------------------

/// No two port mappings of an accepted configuration, of clusters or of
/// services, compete for one host binding.
pub proof fn law_host_bindings_are_disjoint(config: ForgeConfig, i: int, j: int)
    requires
        accepted(config),
        0 <= i < all_claims(config).len(),
        0 <= j < all_claims(config).len(),
        i != j,
    ensures
        !ports_conflict(all_claims(config)[i].port, all_claims(config)[j].port),
{
    lemma_accepted_claims_are_disjoint(all_claims(config), 0);
    if i < j {
        assert(!ports_conflict(all_claims(config)[i].port, all_claims(config)[j].port));
    } else {
        assert(!ports_conflict(all_claims(config)[j].port, all_claims(config)[i].port));
    }
}

proof fn lemma_service_claim(services: Seq<ServiceSpec>, s: int, p: int)
    requires
        0 <= s < services.len(),
        0 <= p < services[s].ports@.len(),
    ensures
        exists|k: int|
            0 <= k < service_claims(services).len() && (#[trigger] service_claims(
                services,
            )[k]).port == services[s].ports@[p],
    decreases services.len(),
{
    let rest = services.drop_last();
    if s == services.len() - 1 {
        let k = service_claims(rest).len() + p;
        assert(service_claims(services)[k].port == services[s].ports@[p]);
    } else {
        lemma_service_claim(rest, s, p);
        let k = choose|k: int|
            0 <= k < service_claims(rest).len() && (#[trigger] service_claims(rest)[k]).port
                == rest[s].ports@[p];
        assert(service_claims(services)[k] == service_claims(rest)[k]);
    }
}

proof fn lemma_cluster_claim(clusters: Seq<ClusterSpec>, c: int, p: int)
    requires
        0 <= c < clusters.len(),
        0 <= p < clusters[c].ports@.len(),
    ensures
        exists|k: int|
            0 <= k < cluster_claims(clusters).len() && (#[trigger] cluster_claims(
                clusters,
            )[k]).port == clusters[c].ports@[p],
    decreases clusters.len(),
{
    let rest = clusters.drop_last();
    if c == clusters.len() - 1 {
        let k = cluster_claims(rest).len() + p;
        assert(cluster_claims(clusters)[k].port == clusters[c].ports@[p]);
    } else {
        lemma_cluster_claim(rest, c, p);
        let k = choose|k: int|
            0 <= k < cluster_claims(rest).len() && (#[trigger] cluster_claims(rest)[k]).port
                == rest[c].ports@[p];
        assert(cluster_claims(clusters)[k] == cluster_claims(rest)[k]);
    }
}

/// No port mapping of a cluster of an accepted configuration competes with
/// one of a service: all of them are held against each other.
pub proof fn law_clusters_and_services_share_the_host(
    config: ForgeConfig,
    c: int,
    p: int,
    s: int,
    q: int,
)
    requires
        accepted(config),
        0 <= c < config.spec.clusters@.len(),
        0 <= p < config.spec.clusters@[c].ports@.len(),
        0 <= s < config.spec.services@.len(),
        0 <= q < config.spec.services@[s].ports@.len(),
    ensures
        !ports_conflict(
            config.spec.clusters@[c].ports@[p],
            config.spec.services@[s].ports@[q],
        ),
{
    let of_clusters = cluster_claims(config.spec.clusters@);
    let of_services = service_claims(config.spec.services@);
    lemma_cluster_claim(config.spec.clusters@, c, p);
    lemma_service_claim(config.spec.services@, s, q);
    let i = choose|i: int|
        0 <= i < of_clusters.len() && (#[trigger] of_clusters[i]).port
            == config.spec.clusters@[c].ports@[p];
    let j = choose|j: int|
        0 <= j < of_services.len() && (#[trigger] of_services[j]).port
            == config.spec.services@[s].ports@[q];
    assert(all_claims(config)[i] == of_clusters[i]);
    assert(all_claims(config)[of_clusters.len() + j] == of_services[j]);
    law_host_bindings_are_disjoint(config, i, of_clusters.len() + j);
}

// ---------------------------------------------------------------
// Environment
// ---------------------------------------------------------------

/// In an accepted configuration no text and no key outside the stacks holds
/// template syntax.
pub proof fn law_templates_stand_in_stacks_only(config: ForgeConfig)
    requires
        accepted(config),
    ensures
        !mentions_template(without_stacks(config)),
{
    lemma_template_path_found(without_stacks(config), "$"@);
}

proof fn lemma_forwarding(stacks: Seq<(Seq<char>, StackSpec)>, i: int)
    requires
        0 <= i <= stacks.len(),
        forwarding_complaint(stacks, i) is None,
    ensures
        forall|k: int| i <= k < stacks.len() ==> !forwards_dns((#[trigger] stacks[k]).1),
    decreases stacks.len() - i,
{
    if i < stacks.len() {
        lemma_forwarding(stacks, i + 1);
    }
}

pub(crate) proof fn lemma_attached(services: Seq<ServiceSpec>, i: int)
    requires
        0 <= i <= services.len(),
        attached_complaint(services, i) is None,
    ensures
        forall|k: int|
            i <= k < services.len() ==> (#[trigger] services[k]).network
                != NetworkMode::Environment,
    decreases services.len() - i,
{
    if i < services.len() {
        lemma_attached(services, i + 1);
    }
}

/// An accepted configuration whose clusters share no network has no stack
/// that forwards DNS, in a repetition or outside one, and no service on the shared network; one whose clusters
/// share a network does not ask for Podman. A configured zone is a DNS zone,
/// and certificates are not enabled.
pub proof fn law_network_settings_agree(config: ForgeConfig)
    requires
        accepted(config),
    ensures
        !wants_cross_cluster(config.spec.network) ==> {
            &&& forall|k: int|
                0 <= k < config.spec.stacks@.len() ==> !forwards_dns(
                    (#[trigger] config.spec.stacks@[k]).1,
                )
            &&& forall|k: int|
                0 <= k < config.spec.services@.len() ==> (
                #[trigger] config.spec.services@[k]).network != NetworkMode::Environment
        },
        wants_cross_cluster(config.spec.network) ==> config.spec.runtime.provider
            != RuntimeProvider::Podman,
        config.spec.network matches Some(network) ==> (network.dns_zone matches Some(zone)
            ==> is_dns_zone(zone@)),
        config.spec.certificates matches Some(certs) ==> !certs.enabled,
{
    if !wants_cross_cluster(config.spec.network) {
        lemma_forwarding(config.spec.stacks@, 0);
        lemma_attached(config.spec.services@, 0);
    }
}

proof fn lemma_steps(stack: Seq<char>, steps: Vec<StepSpec>, i: int)
    requires
        0 <= i <= steps@.len(),
        steps_complaint(stack, steps, i) is None,
    ensures
        forall|k: int|
            i <= k < steps@.len() ==> step_complaint(stack, #[trigger] steps@[k]) is None,
    decreases steps@.len() - i,
{
    if i < steps@.len() {
        lemma_steps(stack, steps, i + 1);
    }
}

proof fn lemma_stack_steps(stacks: Seq<(Seq<char>, StackSpec)>, i: int)
    requires
        0 <= i <= stacks.len(),
        stack_steps_complaint(stacks, i) is None,
    ensures
        forall|k: int|
            i <= k < stacks.len() ==> steps_complaint(
                (#[trigger] stacks[k]).0,
                stacks[k].1.steps,
                0,
            ) is None,
    decreases stacks.len() - i,
{
    if i < stacks.len() {
        lemma_stack_steps(stacks, i + 1);
    }
}

/// Every step of every stack of an accepted configuration satisfies the rule
/// for its type.
pub proof fn law_every_step_is_checked(config: ForgeConfig, k: int, i: int)
    requires
        accepted(config),
        0 <= k < config.spec.stacks@.len(),
        0 <= i < config.spec.stacks@[k].1.steps@.len(),
    ensures
        step_complaint(config.spec.stacks@[k].0, config.spec.stacks@[k].1.steps@[i]) is None,
{
    lemma_stack_steps(config.spec.stacks@, 0);
    lemma_steps(config.spec.stacks@[k].0, config.spec.stacks@[k].1.steps, 0);
}

/// A repetition satisfies its rule only if it repeats at least one step and
/// every step that it repeats satisfies the rule for its own type.
pub proof fn law_repeated_steps_are_checked(
    stack: Seq<char>,
    property: String,
    steps: Vec<StepSpec>,
)
    requires
        step_complaint(stack, StepSpec::ForEach { property, steps }) is None,
    ensures
        steps@.len() > 0,
        forall|k: int|
            0 <= k < steps@.len() ==> step_complaint(stack, #[trigger] steps@[k]) is None,
{
    reveal_with_fuel(step_complaint, 2);
    lemma_steps(stack, steps, 0);
}

// ---------------------------------------------------------------
// Documents
// ---------------------------------------------------------------

/// An accepted configuration declares the current schema version and kind.
pub proof fn law_version_and_kind_match(config: ForgeConfig)
    requires
        accepted(config),
    ensures
        config.api_version@ == API_VERSION@,
        config.kind@ == KIND@,
{
}

// ---------------------------------------------------------------
// Ports and health checks
// ---------------------------------------------------------------

/// True when a mapping has both ports and, if it is bound to an address, an IP
/// address.
pub open spec fn is_publishable(port: PortMapping) -> bool {
    &&& port.host != 0
    &&& port.container != 0
    &&& port.bind_address matches Some(text) ==> ip_value(text@) is Some
}

proof fn lemma_service_ports(svc: ServiceSpec, i: int)
    requires
        0 <= i <= svc.ports@.len(),
        service_ports_complaint(svc, i) is None,
    ensures
        forall|k: int|
            i <= k < svc.ports@.len() ==> is_publishable(#[trigger] svc.ports@[k])
                && svc.ports@[k].protocol@ == "tcp"@,
    decreases svc.ports@.len() - i,
{
    if i < svc.ports@.len() {
        lemma_service_ports(svc, i + 1);
    }
}

proof fn lemma_ports_of_cluster(cluster: ClusterSpec, j: int)
    requires
        0 <= j <= cluster.ports@.len(),
        ports_of_cluster_complaint(cluster, j) is None,
    ensures
        forall|k: int|
            j <= k < cluster.ports@.len() ==> is_publishable(#[trigger] cluster.ports@[k])
                && kind_protocol(cluster.ports@[k].protocol@),
    decreases cluster.ports@.len() - j,
{
    if j < cluster.ports@.len() {
        lemma_ports_of_cluster(cluster, j + 1);
        assert(cluster_port_complaint(cluster.ports@[j], cluster.name@) is None);
    }
}

pub(crate) proof fn lemma_cluster_ports(clusters: Seq<ClusterSpec>, i: int)
    requires
        0 <= i <= clusters.len(),
        cluster_ports_complaint(clusters, i) is None,
    ensures
        forall|k: int|
            i <= k < clusters.len() ==> ports_of_cluster_complaint(#[trigger] clusters[k], 0)
                is None,
    decreases clusters.len() - i,
{
    if i < clusters.len() {
        lemma_cluster_ports(clusters, i + 1);
    }
}

/// Every cluster port of an accepted configuration can be published, over a
/// protocol that KIND takes.
pub proof fn law_cluster_ports_are_publishable(config: ForgeConfig, c: int, p: int)
    requires
        accepted(config),
        0 <= c < config.spec.clusters@.len(),
        0 <= p < config.spec.clusters@[c].ports@.len(),
    ensures
        is_publishable(config.spec.clusters@[c].ports@[p]),
        kind_protocol(config.spec.clusters@[c].ports@[p].protocol@),
{
    lemma_cluster_ports(config.spec.clusters@, 0);
    assert(ports_of_cluster_complaint(config.spec.clusters@[c], 0) is None);
    lemma_ports_of_cluster(config.spec.clusters@[c], 0);
}

/// Every service port of an accepted configuration can be published, and
/// carries TCP.
pub proof fn law_service_ports_are_publishable(config: ForgeConfig, s: int, p: int)
    requires
        accepted(config),
        0 <= s < config.spec.services@.len(),
        0 <= p < config.spec.services@[s].ports@.len(),
    ensures
        is_publishable(config.spec.services@[s].ports@[p]),
        config.spec.services@[s].ports@[p].protocol@ == "tcp"@,
{
    lemma_services(config.spec.services@, 0);
    assert(service_complaint(config.spec.services@[s]) is None);
    lemma_service_ports(config.spec.services@[s], 0);
}

/// A health check of an accepted configuration probes a port at least once and
/// at most 300 times, with intervals and timeouts of at most a day, and the
/// port it probes is reachable from the host.
pub proof fn law_health_checks_are_bounded(config: ForgeConfig, s: int)
    requires
        accepted(config),
        0 <= s < config.spec.services@.len(),
    ensures
        service_health_complaint(config.spec.services@[s]) is None,
        config.spec.services@[s].health_check matches Some(hc) ==> {
            &&& hc.port != 0
            &&& 1 <= hc.retries <= 300
            &&& duration_complaint(
                hc.interval@,
                service_context(config.spec.services@[s].name@, "health check interval"@),
            ) is None
            &&& duration_complaint(
                hc.timeout@,
                service_context(config.spec.services@[s].name@, "health check timeout"@),
            ) is None
            &&& health_port_complaint(config.spec.services@[s], hc) is None
        },
{
    lemma_services(config.spec.services@, 0);
    assert(service_complaint(config.spec.services@[s]) is None);
}

/// A duration is accepted only if it is a positive number of seconds or
/// milliseconds that amounts to at most a day.
pub proof fn law_durations_are_at_most_a_day(value: Seq<char>, context: Seq<char>)
    requires
        duration_complaint(value, context) is None,
    ensures
        (before_suffix(value, "ms"@) matches Some(digits) && unsigned_value(
            digits,
            u64::MAX as nat,
        ) matches Some(n) && 1 <= n <= MAX_DURATION_SECS * 1000) || (before_suffix(
            value,
            "s"@,
        ) matches Some(digits) && unsigned_value(digits, u64::MAX as nat) matches Some(n) && 1 <= n
            <= MAX_DURATION_SECS),
{
}

// ---------------------------------------------------------------
// Steps
// ---------------------------------------------------------------

/// What a configuration hands to a tool as a positional argument cannot be
/// read as an option: no accepted image, chart, chart version or watched
/// resource starts with a hyphen.
pub proof fn law_arguments_are_no_options(
    config: ForgeConfig,
    s: int,
    stack: Seq<char>,
    step: StepSpec,
)
    requires
        accepted(config),
        0 <= s < config.spec.services@.len(),
        step_complaint(stack, step) is None,
    ensures
        !first_is(config.spec.services@[s].image@, '-'),
        step matches StepSpec::Helm { chart, version, .. } ==> !first_is(chart@, '-') && !first_is(
            version@,
            '-',
        ),
        step matches StepSpec::Wait { resource, .. } ==> !first_is(resource@, '-'),
        step matches StepSpec::Capture { resource, .. } ==> !first_is(resource@, '-'),
{
    lemma_services(config.spec.services@, 0);
    assert(service_complaint(config.spec.services@[s]) is None);
    reveal_with_fuel(step_complaint, 2);
}

/// An accepted remote manifest is fetched over HTTPS and pinned: by the 64
/// hexadecimal digits of its digest, or by a template for them.
pub proof fn law_remote_manifests_are_pinned(stack: Seq<char>, url: String, sha256: String)
    requires
        step_complaint(stack, StepSpec::Url { url, sha256 }) is None,
    ensures
        begins_with(url@, "https://"@),
        full_field_template(sha256@) || (byte_len(sha256@) == 64 && all_in(
            CharClass::Hex,
            sha256@,
        )),
{
    reveal_with_fuel(step_complaint, 2);
}

/// No path of an accepted step leads out of the configuration root.
pub proof fn law_step_paths_stay_under_the_root(stack: Seq<char>, step: StepSpec)
    requires
        step_complaint(stack, step) is None,
    ensures
        step matches StepSpec::Manifest { path } ==> !escapes_root(path@),
        step matches StepSpec::Kustomize { path } ==> !escapes_root(path@),
        step matches StepSpec::TemplateManifest { path } ==> !escapes_root(path@),
        step matches StepSpec::TemplateFile { source, target } ==> !escapes_root(source@)
            && !escapes_root(target@),
{
    reveal_with_fuel(step_complaint, 2);
}

} // verus!
