//! Which broken rule validation reports, and what the report names.

use vstd::prelude::*;
use crate::config::validate::clusters::{
    cluster_names_complaint, cluster_node_complaint, cluster_nodes_complaint,
    cluster_port_complaint, cluster_ports_complaint, cluster_prefix_complaint,
    cluster_stack_refs_complaint, ports_of_cluster_complaint,
};
use crate::config::validate::deps::{
    auto_deps_of_complaint, auto_start_complaint, cycle_complaint, deps_of_complaint,
    has_dep_cycle, service_deps_complaint,
};
use crate::config::validate::fields::{duration_complaint, non_blank_complaint};
use crate::config::validate::names::dns_label_complaint;
use crate::config::validate::ports::{
    all_claims, claims_complaint, cluster_claims, conflict_text, first_rival, ports_conflict,
    service_claims, Claim, OwnerView,
};
use crate::config::validate::services::{
    service_complaint, service_env_complaint, service_names_complaint, service_ports_complaint,
    service_volumes_complaint, services_complaint,
};
use crate::config::validate::steps::{step_complaint, steps_complaint};
use crate::config::validate::templates::templates_complaint;
use crate::config::validate::{
    api_version_complaint, certificates_complaint, configured_zone_complaint, coredns_complaint,
    environment_network_complaint, kind_complaint, network_name_complaint, provider_complaint,
    stack_names_complaint, stack_steps_complaint, validation_complaint,
};
use crate::config::{ClusterSpec, ForgeConfig, PortMapping, ServiceSpec, StackSpec, StepSpec};
use crate::error::Complaint;
use crate::numeral::decimal;
use crate::text::{debug_form, lowercase_form};

verus! {

// ---------------------------------------------------------------
// Order
// ---------------------------------------------------------------

/// The complaints of the rules, in the order in which the rules are checked.
pub open spec fn complaints(config: ForgeConfig) -> Seq<Complaint> {
    let clusters = config.spec.clusters@;
    let services = config.spec.services@;
    let stacks = config.spec.stacks@;
    seq![
        api_version_complaint(config),
        kind_complaint(config),
        dns_label_complaint(config.metadata.name@, "metadata.name"@),
        network_name_complaint(config.metadata.name@, config.spec),
        cluster_names_complaint(clusters, 0),
        cluster_prefix_complaint(config),
        cluster_nodes_complaint(clusters, 0),
        cluster_ports_complaint(clusters, 0),
        service_names_complaint(services, 0),
        services_complaint(services, 0),
        service_deps_complaint(services, 0),
        auto_start_complaint(services, 0),
        cycle_complaint(has_dep_cycle(services)),
        claims_complaint(all_claims(config), 0),
        stack_names_complaint(stacks, 0),
        cluster_stack_refs_complaint(clusters, stacks, 0),
        stack_steps_complaint(stacks, 0),
        configured_zone_complaint(config),
        coredns_complaint(config),
        environment_network_complaint(config),
        provider_complaint(config),
        certificates_complaint(config),
        templates_complaint(config),
    ]
}

/// Validation reports the first rule that is broken, in the order in which the
/// rules are checked, and nothing if none is.
pub proof fn law_the_first_broken_rule_is_reported(config: ForgeConfig, k: int)
    requires
        0 <= k <= complaints(config).len(),
        forall|j: int| 0 <= j < k ==> (#[trigger] complaints(config)[j]) is None,
        k < complaints(config).len() ==> complaints(config)[k] is Some,
    ensures
        validation_complaint(config) == if k < complaints(config).len() {
            complaints(config)[k]
        } else {
            None
        },
{
    let all = complaints(config);
    assert(all.len() == 23);
    assert(0 < k ==> all[0] is None);
    assert(1 < k ==> all[1] is None);
    assert(2 < k ==> all[2] is None);
    assert(3 < k ==> all[3] is None);
    assert(4 < k ==> all[4] is None);
    assert(5 < k ==> all[5] is None);
    assert(6 < k ==> all[6] is None);
    assert(7 < k ==> all[7] is None);
    assert(8 < k ==> all[8] is None);
    assert(9 < k ==> all[9] is None);
    assert(10 < k ==> all[10] is None);
    assert(11 < k ==> all[11] is None);
    assert(12 < k ==> all[12] is None);
    assert(13 < k ==> all[13] is None);
    assert(14 < k ==> all[14] is None);
    assert(15 < k ==> all[15] is None);
    assert(16 < k ==> all[16] is None);
    assert(17 < k ==> all[17] is None);
    assert(18 < k ==> all[18] is None);
    assert(19 < k ==> all[19] is None);
    assert(20 < k ==> all[20] is None);
    assert(21 < k ==> all[21] is None);
    assert(22 < k ==> all[22] is None);
}

/// A wrong version or kind is reported with what was expected and what was found.
pub proof fn law_version_and_kind_are_reported(config: ForgeConfig)
    ensures
        config.api_version@ != "forge.praxis.dev/v1alpha1"@ ==> validation_complaint(config)
            == Some(
            "expected apiVersion "@ + debug_form("forge.praxis.dev/v1alpha1"@) + ", got "@
                + debug_form(config.api_version@),
        ),
        config.api_version@ == "forge.praxis.dev/v1alpha1"@ && config.kind@ != "Environment"@
            ==> validation_complaint(config) == Some(
            "expected kind "@ + debug_form("Environment"@) + ", got "@ + debug_form(config.kind@),
        ),
{
}

// ---------------------------------------------------------------
// Culprits
// ---------------------------------------------------------------

/// True when a complaint, if there is one, begins with a text.
pub open spec fn names(complaint: Complaint, front: Seq<char>) -> bool {
    complaint matches Some(text) ==> exists|rest: Seq<char>| text == #[trigger] (front + rest)
}

/// How a complaint about a service begins.
pub open spec fn of_service(name: Seq<char>) -> Seq<char> {
    "service "@ + debug_form(name) + ": "@
}

/// How a complaint about a cluster begins.
pub open spec fn of_cluster(name: Seq<char>) -> Seq<char> {
    "cluster "@ + debug_form(name) + ": "@
}

/// How a complaint about a stack begins.
pub open spec fn of_stack(name: Seq<char>) -> Seq<char> {
    "stack "@ + debug_form(name) + ": "@
}

proof fn lemma_names(front: Seq<char>, rest: Seq<char>, more: Seq<char>)
    ensures
        names(Some(front + rest), front),
        names(Some(front + rest + more), front),
{
    assert(front + rest + more =~= front + (rest + more));
}

/// A complaint within a context begins with the context and what the context
/// begins with.
proof fn lemma_names_more(complaint: Complaint, front: Seq<char>, what: Seq<char>)
    requires
        names(complaint, front + what),
    ensures
        names(complaint, front),
{
    if let Some(text) = complaint {
        let rest = choose|rest: Seq<char>| text == #[trigger] ((front + what) + rest);
        assert(text =~= front + (what + rest));
    }
}

proof fn lemma_label_names(name: Seq<char>, front: Seq<char>, what: Seq<char>)
    ensures
        names(dns_label_complaint(name, front + what), front),
{
    let context = front + what;
    if let Some(text) = dns_label_complaint(name, context) {
        assert(text =~= context + text.skip(context.len() as int)) by {
            assert(text.take(context.len() as int) =~= context);
        }
        assert(names(Some(text), context));
        lemma_names_more(Some(text), front, what);
    }
}

proof fn lemma_blank_names(value: Seq<char>, front: Seq<char>, what: Seq<char>)
    ensures
        names(non_blank_complaint(value, front + what), front),
{
    lemma_names(front + what, ": must not be blank"@, Seq::empty());
    lemma_names_more(non_blank_complaint(value, front + what), front, what);
}

proof fn lemma_duration_names(value: Seq<char>, front: Seq<char>, what: Seq<char>)
    ensures
        names(duration_complaint(value, front + what), front),
{
    let context = front + what;
    if let Some(text) = duration_complaint(value, context) {
        assert(text =~= context + text.skip(context.len() as int)) by {
            assert(text.take(context.len() as int) =~= context);
        }
        assert(names(Some(text), context));
        lemma_names_more(Some(text), front, what);
    }
}

proof fn lemma_path_names(value: Seq<char>, front: Seq<char>, what: Seq<char>)
    ensures
        names(
            crate::config::validate::fields::relative_path_complaint(value, front + what),
            front,
        ),
{
    let complaint = crate::config::validate::fields::relative_path_complaint(value, front + what);
    lemma_names(front + what, ": must not be blank"@, Seq::empty());
    lemma_names(
        front + what,
        ": path must be relative and must not escape the config root"@,
        Seq::empty(),
    );
    lemma_names_more(complaint, front, what);
}

proof fn lemma_service_ports_named(svc: ServiceSpec, i: int)
    ensures
        names(service_ports_complaint(svc, i), of_service(svc.name@)),
    decreases svc.ports@.len() - i,
{
    if 0 <= i < svc.ports@.len() {
        lemma_service_ports_named(svc, i + 1);
        let front = of_service(svc.name@);
        let port = svc.ports@[i];
        lemma_names(front, "host"@ + " port must not be zero"@, Seq::empty());
        lemma_names(front, "container"@ + " port must not be zero"@, Seq::empty());
        if let Some(text) = port.bind_address {
            lemma_names(
                front,
                "bind address "@ + debug_form(text@) + " is not a valid IP"@,
                Seq::empty(),
            );
        }
        lemma_names(
            front,
            "unsupported port protocol "@ + debug_form(port.protocol@) + " (expected tcp)"@,
            Seq::empty(),
        );
    }
}

proof fn lemma_service_volumes_named(svc: ServiceSpec, i: int)
    ensures
        names(service_volumes_complaint(svc, i), of_service(svc.name@)),
    decreases svc.volumes@.len() - i,
{
    if 0 <= i < svc.volumes@.len() {
        lemma_service_volumes_named(svc, i + 1);
        let front = of_service(svc.name@);
        lemma_path_names(svc.volumes@[i].source@, front, "volume source"@);
        lemma_names(front, "volume target must not be empty"@, Seq::empty());
        lemma_names(front, "volume target must be an absolute path"@, Seq::empty());
    }
}

proof fn lemma_service_env_named(env: Seq<(Seq<char>, String)>, service: Seq<char>, i: int)
    ensures
        names(service_env_complaint(env, service, i), of_service(service)),
    decreases env.len() - i,
{
    if 0 <= i < env.len() {
        lemma_service_env_named(env, service, i + 1);
        let front = of_service(service);
        lemma_names(front, "environment key must not be empty"@, Seq::empty());
        lemma_names(front, "environment key exceeds 256 characters"@, Seq::empty());
        lemma_names(
            front,
            "environment key "@ + debug_form(env[i].0) + " is not a valid identifier"@,
            Seq::empty(),
        );
    }
}

/// A complaint about a service by itself names the service.
pub proof fn law_complaints_name_the_service(svc: ServiceSpec)
    ensures
        names(service_complaint(svc), of_service(svc.name@)),
{
    let front = of_service(svc.name@);
    lemma_service_ports_named(svc, 0);
    lemma_service_volumes_named(svc, 0);
    lemma_service_env_named(svc.env@, svc.name@, 0);
    lemma_blank_names(svc.image@, front, "image"@);
    lemma_names(front + "image"@, ": exceeds 512 characters"@, Seq::empty());
    lemma_names_more(
        Some(front + "image"@ + ": exceeds 512 characters"@),
        front,
        "image"@,
    );
    lemma_names(front + "image"@, ": must not start with '-'"@, Seq::empty());
    lemma_names_more(
        Some(front + "image"@ + ": must not start with '-'"@),
        front,
        "image"@,
    );
    lemma_names(front, "more than 128 args"@, Seq::empty());
    lemma_names(front, "arg exceeds 4096 characters"@, Seq::empty());
    lemma_names(front, "health check port must not be zero"@, Seq::empty());
    lemma_names(front, "health check retries must be 1..=300"@, Seq::empty());
    if let Some(hc) = svc.health_check {
        lemma_duration_names(hc.interval@, front, "health check interval"@);
        lemma_duration_names(hc.timeout@, front, "health check timeout"@);
        lemma_names(
            front,
            "health check port "@ + decimal(hc.port as nat)
                + " must match a published tcp container port unless network is host"@,
            Seq::empty(),
        );
    }
}

/// The first complaint of a list from position `i` on.
pub open spec fn first_of(list: Seq<Complaint>, i: int) -> Complaint
    decreases list.len() - i,
{
    if i < 0 || i >= list.len() {
        None
    } else if list[i] is Some {
        list[i]
    } else {
        first_of(list, i + 1)
    }
}

/// The first complaint of a list is one of its members, and no member before it is
/// a complaint.
pub proof fn law_no_complaint_comes_before_the_first(list: Seq<Complaint>, i: int)
    requires
        0 <= i <= list.len(),
    ensures
        match first_of(list, i) {
            Some(text) => exists|k: int|
                i <= k < list.len() && #[trigger] list[k] == Some(text) && forall|j: int|
                    i <= j < k ==> (#[trigger] list[j]) is None,
            None => forall|k: int| i <= k < list.len() ==> (#[trigger] list[k]) is None,
        },
    decreases list.len() - i,
{
    if i < list.len() {
        law_no_complaint_comes_before_the_first(list, i + 1);
        if list[i] is Some {
            assert(list[i] == Some(list[i]->0));
        } else if let Some(text) = first_of(list, i + 1) {
            let k = choose|k: int|
                i + 1 <= k < list.len() && #[trigger] list[k] == Some(text) && forall|j: int|
                    i + 1 <= j < k ==> (#[trigger] list[j]) is None;
            assert(list[k] == Some(text));
        }
    }
}

/// The complaints about each service by itself.
pub open spec fn service_complaints(services: Seq<ServiceSpec>) -> Seq<Complaint> {
    Seq::new(services.len(), |k: int| service_complaint(services[k]))
}

proof fn lemma_first_service(services: Seq<ServiceSpec>, i: int)
    requires
        0 <= i <= services.len(),
    ensures
        services_complaint(services, i) == first_of(service_complaints(services), i),
    decreases services.len() - i,
{
    if i < services.len() {
        lemma_first_service(services, i + 1);
        assert(service_complaints(services)[i] == service_complaint(services[i]));
    }
}

/// The complaints about the dependencies of each service.
pub open spec fn dependency_complaints(services: Seq<ServiceSpec>) -> Seq<Complaint> {
    Seq::new(services.len(), |k: int| deps_of_complaint(services, k, 0))
}

proof fn lemma_first_dependent(services: Seq<ServiceSpec>, i: int)
    requires
        0 <= i <= services.len(),
    ensures
        service_deps_complaint(services, i) == first_of(dependency_complaints(services), i),
    decreases services.len() - i,
{
    if i < services.len() {
        lemma_first_dependent(services, i + 1);
        assert(dependency_complaints(services)[i] == deps_of_complaint(services, i, 0));
    }
}

/// A complaint about services is that about the first service that is not valid,
/// or whose dependencies are not.
pub proof fn law_the_first_bad_service_is_reported(services: Seq<ServiceSpec>)
    ensures
        services_complaint(services, 0) == first_of(service_complaints(services), 0),
        service_deps_complaint(services, 0) == first_of(dependency_complaints(services), 0),
{
    lemma_first_service(services, 0);
    lemma_first_dependent(services, 0);
}

/// The complaints about the node counts of each cluster.
pub open spec fn node_complaints(clusters: Seq<ClusterSpec>) -> Seq<Complaint> {
    Seq::new(clusters.len(), |k: int| cluster_node_complaint(clusters[k]))
}

/// The complaints about each port of a cluster.
pub open spec fn port_complaints(cluster: ClusterSpec) -> Seq<Complaint> {
    Seq::new(
        cluster.ports@.len(),
        |k: int| cluster_port_complaint(cluster.ports@[k], cluster.name@),
    )
}

/// The first complaints about the ports of each cluster.
pub open spec fn cluster_complaints(clusters: Seq<ClusterSpec>) -> Seq<Complaint> {
    Seq::new(clusters.len(), |k: int| first_of(port_complaints(clusters[k]), 0))
}

proof fn lemma_first_nodes(clusters: Seq<ClusterSpec>, i: int)
    requires
        0 <= i <= clusters.len(),
    ensures
        cluster_nodes_complaint(clusters, i) == first_of(node_complaints(clusters), i),
    decreases clusters.len() - i,
{
    if i < clusters.len() {
        lemma_first_nodes(clusters, i + 1);
        assert(node_complaints(clusters)[i] == cluster_node_complaint(clusters[i]));
    }
}

proof fn lemma_first_port(cluster: ClusterSpec, j: int)
    requires
        0 <= j <= cluster.ports@.len(),
    ensures
        ports_of_cluster_complaint(cluster, j) == first_of(port_complaints(cluster), j),
    decreases cluster.ports@.len() - j,
{
    if j < cluster.ports@.len() {
        lemma_first_port(cluster, j + 1);
        assert(port_complaints(cluster)[j] == cluster_port_complaint(
            cluster.ports@[j],
            cluster.name@,
        ));
    }
}

proof fn lemma_first_ports(clusters: Seq<ClusterSpec>, i: int)
    requires
        0 <= i <= clusters.len(),
    ensures
        cluster_ports_complaint(clusters, i) == first_of(cluster_complaints(clusters), i),
    decreases clusters.len() - i,
{
    if i < clusters.len() {
        lemma_first_ports(clusters, i + 1);
        lemma_first_port(clusters[i], 0);
        assert(cluster_complaints(clusters)[i] == first_of(port_complaints(clusters[i]), 0));
    }
}

/// A complaint about node counts is that about the first cluster with bad ones, and
/// one about cluster ports that about the first bad port of the first cluster that
/// has one.
pub proof fn law_the_first_bad_cluster_is_reported(clusters: Seq<ClusterSpec>)
    ensures
        cluster_nodes_complaint(clusters, 0) == first_of(node_complaints(clusters), 0),
        cluster_ports_complaint(clusters, 0) == first_of(cluster_complaints(clusters), 0),
{
    lemma_first_nodes(clusters, 0);
    lemma_first_ports(clusters, 0);
}

/// The complaints about each step of a stack.
pub open spec fn step_complaints(stack: Seq<char>, steps: Seq<StepSpec>) -> Seq<Complaint> {
    Seq::new(steps.len(), |k: int| step_complaint(stack, steps[k]))
}

/// The first complaints about the steps of each stack.
pub open spec fn stack_complaints(stacks: Seq<(Seq<char>, StackSpec)>) -> Seq<Complaint> {
    Seq::new(
        stacks.len(),
        |k: int| first_of(step_complaints(stacks[k].0, stacks[k].1.steps@), 0),
    )
}

proof fn lemma_first_step(stack: Seq<char>, steps: Vec<StepSpec>, i: int)
    requires
        0 <= i <= steps@.len(),
    ensures
        steps_complaint(stack, steps, i) == first_of(step_complaints(stack, steps@), i),
    decreases steps@.len() - i,
{
    if i < steps@.len() {
        lemma_first_step(stack, steps, i + 1);
        assert(step_complaints(stack, steps@)[i] == step_complaint(stack, steps@[i]));
    }
}

proof fn lemma_first_stack(stacks: Seq<(Seq<char>, StackSpec)>, i: int)
    requires
        0 <= i <= stacks.len(),
    ensures
        stack_steps_complaint(stacks, i) == first_of(stack_complaints(stacks), i),
    decreases stacks.len() - i,
{
    if i < stacks.len() {
        lemma_first_stack(stacks, i + 1);
        lemma_first_step(stacks[i].0, stacks[i].1.steps, 0);
        assert(stack_complaints(stacks)[i] == first_of(
            step_complaints(stacks[i].0, stacks[i].1.steps@),
            0,
        ));
    }
}

/// A complaint about steps is that about the first bad step of the first stack that
/// has one, in the name of that stack.
pub proof fn law_the_first_bad_step_is_reported(stacks: Seq<(Seq<char>, StackSpec)>)
    ensures
        stack_steps_complaint(stacks, 0) == first_of(stack_complaints(stacks), 0),
{
    lemma_first_stack(stacks, 0);
}

/// A complaint about the node counts or a port of a cluster names the cluster.
pub proof fn law_complaints_name_the_cluster(cluster: ClusterSpec, port: PortMapping)
    ensures
        names(cluster_node_complaint(cluster), of_cluster(cluster.name@)),
        names(cluster_port_complaint(port, cluster.name@), of_cluster(cluster.name@)),
{
    let front = of_cluster(cluster.name@);
    lemma_names(front, "controlPlanes must be 1..="@ + decimal(9), Seq::empty());
    lemma_names(front, "workers must not exceed "@ + decimal(100), Seq::empty());
    lemma_names(front, "port mapping host and container ports must not be zero"@, Seq::empty());
    if let Some(text) = port.bind_address {
        lemma_names(
            front,
            "bind address "@ + debug_form(text@) + " is not a valid IP"@,
            Seq::empty(),
        );
    }
    lemma_names(
        front,
        "unsupported port protocol "@ + debug_form(port.protocol@)
            + " (expected tcp, udp, or sctp)"@,
        Seq::empty(),
    );
}

/// A complaint about the dependencies of a service names the service.
pub proof fn law_complaints_name_the_dependent(services: Seq<ServiceSpec>, i: int, k: int)
    requires
        0 <= i < services.len(),
        0 <= k <= services[i].depends_on@.len(),
    ensures
        names(deps_of_complaint(services, i, k), of_service(services[i].name@)),
        names(auto_deps_of_complaint(services, i, k), of_service(services[i].name@)),
    decreases services[i].depends_on@.len() - k,
{
    if k < services[i].depends_on@.len() {
        law_complaints_name_the_dependent(services, i, k + 1);
        let front = of_service(services[i].name@);
        let dep = services[i].depends_on@[k]@;
        lemma_names(front, "depends on itself"@, Seq::empty());
        lemma_names(front, "depends on unknown service "@ + debug_form(dep), Seq::empty());
        lemma_names(
            front,
            "auto-started service depends on non-auto-start service "@ + debug_form(dep),
            Seq::empty(),
        );
    }
}

// ---------------------------------------------------------------
// Host ports
// ---------------------------------------------------------------

/// How the owner of a port is named.
pub open spec fn owner_name(owner: OwnerView) -> Seq<char> {
    match owner {
        OwnerView::Cluster(name) => "cluster "@ + debug_form(name),
        OwnerView::Service(name) => "service "@ + debug_form(name),
    }
}

proof fn lemma_rival(claims: Seq<Claim>, i: int, j: int)
    requires
        0 <= j,
    ensures
        match first_rival(claims, i, j) {
            Some(k) => j <= k < i && ports_conflict(claims[k].port, claims[i].port) && forall|m: int|
                j <= m < k ==> !ports_conflict((#[trigger] claims[m]).port, claims[i].port),
            None => forall|m: int|
                j <= m < i ==> !ports_conflict((#[trigger] claims[m]).port, claims[i].port),
        },
    decreases i - j,
{
    if j < i {
        lemma_rival(claims, i, j + 1);
    }
}

/// A complaint about host ports names the owner of the mapping, the address, the
/// port and the protocol that are taken, and who has taken them: the first
/// mapping that competes with an earlier one is reported, together with the first
/// that it competes with.
pub proof fn law_port_conflicts_name_both_owners(claims: Seq<Claim>, from: int)
    requires
        0 <= from <= claims.len(),
        forall|i: int, j: int|
            0 <= j < i < from ==> !ports_conflict(
                (#[trigger] claims[j]).port,
                (#[trigger] claims[i]).port,
            ),
    ensures
        claims_complaint(claims, from) matches Some(text) ==> exists|i: int, j: int|
            #![trigger claims[i], claims[j]]
            0 <= j < i < claims.len() && ports_conflict(claims[j].port, claims[i].port) && (
            forall|m: int| 0 <= m < j ==> !ports_conflict(
                (#[trigger] claims[m]).port,
                claims[i].port,
            )) && (forall|a: int, b: int|
                0 <= b < a < i ==> !ports_conflict(
                    (#[trigger] claims[b]).port,
                    (#[trigger] claims[a]).port,
                )) && text == conflict_text(claims[i].owner, claims[j].owner, claims[i].port),
    decreases claims.len() - from,
{
    if from < claims.len() {
        lemma_rival(claims, from, 0);
        match first_rival(claims, from, 0) {
            Some(j) => {
                assert(ports_conflict(claims[j].port, claims[from].port));
            },
            None => {
                law_port_conflicts_name_both_owners(claims, from + 1);
            },
        }
    }
}

/// What a complaint about a host port says.
pub proof fn law_port_conflicts_are_described(
    owner: OwnerView,
    other: OwnerView,
    port: PortMapping,
)
    ensures
        ({
            let addr = match port.bind_address {
                Some(text) => text@,
                None => "0.0.0.0"@,
            };
            let binding = addr + ":"@ + decimal(port.host as nat) + ("/"@ + lowercase_form(
                port.protocol@,
            ));
            conflict_text(owner, other, port) == if owner == other {
                owner_name(owner) + ": duplicate host port binding "@ + binding
            } else {
                owner_name(owner) + ": host port binding "@ + binding + (" is already mapped by "@
                    + owner_name(other))
            }
        }),
{
    let addr = match port.bind_address {
        Some(text) => text@,
        None => "0.0.0.0"@,
    };
    let binding = addr + ":"@ + decimal(port.host as nat) + ("/"@ + lowercase_form(port.protocol@));
    assert(addr + ":"@ + decimal(port.host as nat) + "/"@ + lowercase_form(port.protocol@)
        =~= binding);
    if owner != other {
        assert(conflict_text(owner, other, port) =~= owner_name(owner) + ": host port binding "@
            + binding + (" is already mapped by "@ + owner_name(other)));
    }
}

/// True when a claim is that of a port mapping of a cluster, in the name of the
/// cluster.
pub open spec fn is_cluster_claim(clusters: Seq<ClusterSpec>, claim: Claim) -> bool {
    exists|c: int, p: int|
        #![trigger clusters[c].ports@[p]]
        0 <= c < clusters.len() && 0 <= p < clusters[c].ports@.len() && claim.port
            == clusters[c].ports@[p] && claim.owner == OwnerView::Cluster(clusters[c].name@)
}

/// True when a claim is that of a port mapping of a service, in the name of the
/// service.
pub open spec fn is_service_claim(services: Seq<ServiceSpec>, claim: Claim) -> bool {
    exists|s: int, p: int|
        #![trigger services[s].ports@[p]]
        0 <= s < services.len() && 0 <= p < services[s].ports@.len() && claim.port
            == services[s].ports@[p] && claim.owner == OwnerView::Service(services[s].name@)
}

proof fn lemma_cluster_claims(clusters: Seq<ClusterSpec>, k: int)
    requires
        0 <= k < cluster_claims(clusters).len(),
    ensures
        is_cluster_claim(clusters, cluster_claims(clusters)[k]),
    decreases clusters.len(),
{
    let rest = clusters.drop_last();
    let before = cluster_claims(rest);
    let last = clusters.len() - 1;
    if k < before.len() {
        lemma_cluster_claims(rest, k);
        assert(cluster_claims(clusters)[k] == before[k]);
        let (c, p) = choose|c: int, p: int|
            #![trigger rest[c].ports@[p]]
            0 <= c < rest.len() && 0 <= p < rest[c].ports@.len() && before[k].port
                == rest[c].ports@[p] && before[k].owner == OwnerView::Cluster(rest[c].name@);
        assert(clusters[c] == rest[c]);
        assert(before[k].port == clusters[c].ports@[p]);
    } else {
        let p = k - before.len();
        assert(cluster_claims(clusters)[k].port == clusters[last].ports@[p]);
    }
}

proof fn lemma_service_claims(services: Seq<ServiceSpec>, k: int)
    requires
        0 <= k < service_claims(services).len(),
    ensures
        is_service_claim(services, service_claims(services)[k]),
    decreases services.len(),
{
    let rest = services.drop_last();
    let before = service_claims(rest);
    let last = services.len() - 1;
    if k < before.len() {
        lemma_service_claims(rest, k);
        assert(service_claims(services)[k] == before[k]);
        let (s, p) = choose|s: int, p: int|
            #![trigger rest[s].ports@[p]]
            0 <= s < rest.len() && 0 <= p < rest[s].ports@.len() && before[k].port
                == rest[s].ports@[p] && before[k].owner == OwnerView::Service(rest[s].name@);
        assert(services[s] == rest[s]);
        assert(before[k].port == services[s].ports@[p]);
    } else {
        let p = k - before.len();
        assert(service_claims(services)[k].port == services[last].ports@[p]);
    }
}

/// Every claim on a host port is made in the name of the cluster or the service
/// that the mapping belongs to; those of clusters come first.
pub proof fn law_claims_are_made_by_the_owner(config: ForgeConfig, k: int)
    requires
        0 <= k < all_claims(config).len(),
    ensures
        k < cluster_claims(config.spec.clusters@).len() ==> is_cluster_claim(
            config.spec.clusters@,
            all_claims(config)[k],
        ),
        k >= cluster_claims(config.spec.clusters@).len() ==> is_service_claim(
            config.spec.services@,
            all_claims(config)[k],
        ),
{
    let n = cluster_claims(config.spec.clusters@).len() as int;
    if k < n {
        lemma_cluster_claims(config.spec.clusters@, k);
    } else {
        lemma_service_claims(config.spec.services@, k - n);
    }
}

} // verus!
