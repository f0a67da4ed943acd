//! Rules for clusters.

use vstd::prelude::*;
use crate::config::validate::names::{
    check_dns_label, check_docker_name, dns_label_complaint, docker_name_complaint,
};
use crate::config::{ClusterSpec, ForgeConfig, PortMapping, StackSpec};
use crate::error::{first_complaint, invalid, verdict, Complaint, ForgeError};
use crate::ip::{ip_value, parse_ip};
use crate::naming::{kind_cluster_name, kind_name_of};
use crate::numeral::{decimal, to_decimal};
use crate::strmap::{has_key, StrMap};
use crate::text::{
    debug_form, join2, join3, join4, join5, lowercase_form, lowercased, quoted, same_text,
};

verus! {

/// The opening words of a complaint about a cluster.
pub open spec fn cluster_context(cluster: Seq<char>, what: Seq<char>) -> Seq<char> {
    "cluster "@ + debug_form(cluster) + ": "@ + what
}

/// Renders the opening words of a complaint about a cluster.
pub(crate) fn in_cluster(cluster_name: &str, what: &str) -> (r: String)
    ensures
        r@ == cluster_context(cluster_name@, what@),
{
    join4("cluster ", &quoted(cluster_name), ": ", what)
}

// ---------------------------------------------------------------
// Names
// ---------------------------------------------------------------

/// True when an earlier cluster has the name of cluster `i`.
pub open spec fn cluster_named_before(clusters: Seq<ClusterSpec>, i: int) -> bool {
    exists|j: int| 0 <= j < i && (#[trigger] clusters[j]).name@ == clusters[i].name@
}

/// What is wrong with the cluster names from position `i` on.
pub open spec fn cluster_names_complaint(clusters: Seq<ClusterSpec>, i: int) -> Complaint
    decreases clusters.len() - i,
{
    if i < 0 || i >= clusters.len() {
        None
    } else {
        first_complaint(
            dns_label_complaint(clusters[i].name@, "cluster"@),
            if cluster_named_before(clusters, i) {
                Some("duplicate cluster name: "@ + debug_form(clusters[i].name@))
            } else {
                cluster_names_complaint(clusters, i + 1)
            },
        )
    }
}

fn is_cluster_named_before(clusters: &Vec<ClusterSpec>, i: usize) -> (r: bool)
    requires
        i < clusters@.len(),
    ensures
        r == cluster_named_before(clusters@, i as int),
{
    let mut j: usize = 0;
    while j < i
        invariant
            j <= i,
            i < clusters@.len(),
            forall|k: int| 0 <= k < j ==> (#[trigger] clusters@[k]).name@ != clusters@[i as int].name@,
        decreases i - j,
    {
        if same_text(&clusters[j].name, &clusters[i].name) {
            return true;
        }
        j += 1;
    }
    false
}

/// Cluster names must be unique and DNS-label-valid.
pub fn check_cluster_names(config: &ForgeConfig) -> (r: Result<(), ForgeError>)
    ensures
        verdict(r, cluster_names_complaint(config.spec.clusters@, 0)),
{
    let clusters = &config.spec.clusters;
    let mut i: usize = 0;
    while i < clusters.len()
        invariant
            clusters@ == config.spec.clusters@,
            i <= clusters@.len(),
            cluster_names_complaint(clusters@, 0) == cluster_names_complaint(clusters@, i as int),
        decreases clusters.len() - i,
    {
        check_dns_label(&clusters[i].name, "cluster")?;
        if is_cluster_named_before(clusters, i) {
            return invalid(join2("duplicate cluster name: ", &quoted(&clusters[i].name)));
        }
        i += 1;
    }
    Ok(())
}

/// What is wrong with the KIND names of the clusters from position `i` on.
pub open spec fn kind_names_complaint(
    prefix: Seq<char>,
    clusters: Seq<ClusterSpec>,
    i: int,
) -> Complaint
    decreases clusters.len() - i,
{
    if i < 0 || i >= clusters.len() {
        None
    } else {
        first_complaint(
            docker_name_complaint(
                kind_name_of(prefix, clusters[i].name@),
                "derived KIND cluster name"@,
            ),
            kind_names_complaint(prefix, clusters, i + 1),
        )
    }
}

/// What is wrong with the cluster prefix and the names made with it.
pub open spec fn cluster_prefix_complaint(config: ForgeConfig) -> Complaint {
    first_complaint(
        dns_label_complaint(config.spec.runtime.cluster_prefix@, "runtime.clusterPrefix"@),
        kind_names_complaint(config.spec.runtime.cluster_prefix@, config.spec.clusters@, 0),
    )
}

/// `runtime.clusterPrefix` must be a DNS label, and every derived
/// `{prefix}-{cluster}` KIND name must be safe for Docker/Podman.
///
/// The prefix flows verbatim into `kind create cluster --name` and the
/// temporary KIND config filename, so a bad value would otherwise
/// surface only as a raw tool error during `forge up`.
pub fn check_cluster_prefix(config: &ForgeConfig) -> (r: Result<(), ForgeError>)
    ensures
        verdict(r, cluster_prefix_complaint(*config)),
{
    let prefix = &config.spec.runtime.cluster_prefix;
    check_dns_label(prefix, "runtime.clusterPrefix")?;
    let clusters = &config.spec.clusters;
    let mut i: usize = 0;
    while i < clusters.len()
        invariant
            clusters@ == config.spec.clusters@,
            prefix@ == config.spec.runtime.cluster_prefix@,
            i <= clusters@.len(),
            cluster_prefix_complaint(*config) == kind_names_complaint(
                prefix@,
                clusters@,
                i as int,
            ),
        decreases clusters.len() - i,
    {
        let derived = kind_cluster_name(prefix, &clusters[i].name);
        check_docker_name(&derived, "derived KIND cluster name")?;
        i += 1;
    }
    Ok(())
}

// ---------------------------------------------------------------
// Nodes
// ---------------------------------------------------------------

/// Maximum control-plane nodes per KIND cluster.
///
/// KIND is a development tool; the bound keeps an absurd count from
/// building a huge KIND config before kind itself could refuse it.
pub const MAX_CONTROL_PLANES: u32 = 9;

/// Maximum worker nodes per KIND cluster.
pub const MAX_WORKERS: u32 = 100;

/// What is wrong with the node counts of a cluster.
pub open spec fn cluster_node_complaint(cluster: ClusterSpec) -> Complaint {
    if cluster.nodes.control_planes == 0 || cluster.nodes.control_planes > MAX_CONTROL_PLANES {
        Some(
            cluster_context(
                cluster.name@,
                "controlPlanes must be 1..="@ + decimal(MAX_CONTROL_PLANES as nat),
            ),
        )
    } else if cluster.nodes.workers > MAX_WORKERS {
        Some(
            cluster_context(
                cluster.name@,
                "workers must not exceed "@ + decimal(MAX_WORKERS as nat),
            ),
        )
    } else {
        None
    }
}

/// What is wrong with the node counts of the clusters from position `i` on.
pub open spec fn cluster_nodes_complaint(clusters: Seq<ClusterSpec>, i: int) -> Complaint
    decreases clusters.len() - i,
{
    if i < 0 || i >= clusters.len() {
        None
    } else {
        first_complaint(
            cluster_node_complaint(clusters[i]),
            cluster_nodes_complaint(clusters, i + 1),
        )
    }
}

/// Each cluster needs a bounded, non-zero control-plane count and a
/// bounded worker count.
pub fn check_cluster_nodes(config: &ForgeConfig) -> (r: Result<(), ForgeError>)
    ensures
        verdict(r, cluster_nodes_complaint(config.spec.clusters@, 0)),
{
    let clusters = &config.spec.clusters;
    let mut i: usize = 0;
    while i < clusters.len()
        invariant
            clusters@ == config.spec.clusters@,
            i <= clusters@.len(),
            cluster_nodes_complaint(clusters@, 0) == cluster_nodes_complaint(clusters@, i as int),
        decreases clusters.len() - i,
    {
        let cluster = &clusters[i];
        let nodes = &cluster.nodes;
        if nodes.control_planes == 0 || nodes.control_planes > MAX_CONTROL_PLANES {
            return invalid(
                in_cluster(
                    &cluster.name,
                    &join2("controlPlanes must be 1..=", &to_decimal(MAX_CONTROL_PLANES as u64)),
                ),
            );
        }
        if nodes.workers > MAX_WORKERS {
            return invalid(
                in_cluster(
                    &cluster.name,
                    &join2("workers must not exceed ", &to_decimal(MAX_WORKERS as u64)),
                ),
            );
        }
        i += 1;
    }
    Ok(())
}

// ---------------------------------------------------------------
// Ports
// ---------------------------------------------------------------

/// True when KIND can map ports of a protocol, whatever its case.
pub open spec fn kind_protocol(protocol: Seq<char>) -> bool {
    let lower = lowercase_form(protocol);
    lower == "tcp"@ || lower == "udp"@ || lower == "sctp"@
}

/// What is wrong with the protocol of a cluster port.
pub open spec fn cluster_protocol_complaint(protocol: Seq<char>, cluster: Seq<char>) -> Complaint {
    if kind_protocol(protocol) {
        None
    } else {
        Some(
            cluster_context(
                cluster,
                "unsupported port protocol "@ + debug_form(protocol)
                    + " (expected tcp, udp, or sctp)"@,
            ),
        )
    }
}

/// KIND accepts only TCP, UDP, and SCTP for `extraPortMappings`. The value is
/// upper-cased verbatim into the generated cluster config, so anything else
/// surfaces as an opaque `kind create cluster` failure instead of a config
/// error. Unlike service ports (TCP only), all three are valid here.
pub fn check_cluster_port_protocol(protocol: &str, cluster_name: &str) -> (r: Result<
    (),
    ForgeError,
>)
    ensures
        verdict(r, cluster_protocol_complaint(protocol@, cluster_name@)),
{
    let lower = lowercased(protocol);
    if !same_text(&lower, "tcp") && !same_text(&lower, "udp") && !same_text(&lower, "sctp") {
        return invalid(
            in_cluster(
                cluster_name,
                &join3(
                    "unsupported port protocol ",
                    &quoted(protocol),
                    " (expected tcp, udp, or sctp)",
                ),
            ),
        );
    }
    Ok(())
}

/// What is wrong with one cluster port.
pub open spec fn cluster_port_complaint(pm: PortMapping, cluster: Seq<char>) -> Complaint {
    if pm.host == 0 || pm.container == 0 {
        Some(
            cluster_context(
                cluster,
                "port mapping host and container ports must not be zero"@,
            ),
        )
    } else if pm.bind_address is Some && ip_value(pm.bind_address->0@) is None {
        Some(
            cluster_context(
                cluster,
                "bind address "@ + debug_form(pm.bind_address->0@) + " is not a valid IP"@,
            ),
        )
    } else {
        cluster_protocol_complaint(pm.protocol@, cluster)
    }
}

/// Per-port checks that do not depend on any other port: non-zero values, a
/// parseable bind address, and a protocol KIND accepts.
pub fn check_cluster_port(pm: &PortMapping, cluster_name: &str) -> (r: Result<(), ForgeError>)
    ensures
        verdict(r, cluster_port_complaint(*pm, cluster_name@)),
{
    if pm.host == 0 || pm.container == 0 {
        return invalid(
            in_cluster(cluster_name, "port mapping host and container ports must not be zero"),
        );
    }
    if let Some(addr) = &pm.bind_address {
        if parse_ip(addr).is_none() {
            return invalid(
                in_cluster(
                    cluster_name,
                    &join3("bind address ", &quoted(addr), " is not a valid IP"),
                ),
            );
        }
    }
    check_cluster_port_protocol(&pm.protocol, cluster_name)
}

/// What is wrong with the ports of one cluster from position `j` on.
pub open spec fn ports_of_cluster_complaint(cluster: ClusterSpec, j: int) -> Complaint
    decreases cluster.ports.len() - j,
{
    if j < 0 || j >= cluster.ports.len() {
        None
    } else {
        first_complaint(
            cluster_port_complaint(cluster.ports[j], cluster.name@),
            ports_of_cluster_complaint(cluster, j + 1),
        )
    }
}

/// What is wrong with the ports of the clusters from position `i` on.
pub open spec fn cluster_ports_complaint(clusters: Seq<ClusterSpec>, i: int) -> Complaint
    decreases clusters.len() - i,
{
    if i < 0 || i >= clusters.len() {
        None
    } else {
        first_complaint(
            ports_of_cluster_complaint(clusters[i], 0),
            cluster_ports_complaint(clusters, i + 1),
        )
    }
}

/// Validate every cluster's port mappings in isolation.
///
/// Conflicts *between* mappings are not checked here: cluster and service
/// mappings compete for the same host bindings, so one rule looks at both.
pub fn check_cluster_ports(config: &ForgeConfig) -> (r: Result<(), ForgeError>)
    ensures
        verdict(r, cluster_ports_complaint(config.spec.clusters@, 0)),
{
    let clusters = &config.spec.clusters;
    let mut i: usize = 0;
    while i < clusters.len()
        invariant
            clusters@ == config.spec.clusters@,
            i <= clusters@.len(),
            cluster_ports_complaint(clusters@, 0) == cluster_ports_complaint(clusters@, i as int),
        decreases clusters.len() - i,
    {
        let cluster = &clusters[i];
        let mut j: usize = 0;
        while j < cluster.ports.len()
            invariant
                clusters@ == config.spec.clusters@,
                i < clusters@.len(),
                *cluster == clusters@[i as int],
                j <= cluster.ports@.len(),
                cluster_ports_complaint(clusters@, 0) == first_complaint(
                    ports_of_cluster_complaint(*cluster, j as int),
                    cluster_ports_complaint(clusters@, i + 1),
                ),
            decreases cluster.ports.len() - j,
        {
            check_cluster_port(&cluster.ports[j], &cluster.name)?;
            j += 1;
        }
        i += 1;
    }
    Ok(())
}

// ---------------------------------------------------------------
// Stack references
// ---------------------------------------------------------------

/// True when an earlier reference of a list names the same stack.
pub open spec fn referenced_before(refs: Seq<String>, j: int) -> bool {
    exists|k: int| 0 <= k < j && (#[trigger] refs[k])@ == refs[j]@
}

/// What is wrong with the stack references of a cluster from position `j` on.
pub open spec fn stack_refs_complaint(
    cluster: ClusterSpec,
    stacks: Seq<(Seq<char>, StackSpec)>,
    j: int,
) -> Complaint
    decreases cluster.stacks.len() - j,
{
    if j < 0 || j >= cluster.stacks.len() {
        None
    } else if !has_key(stacks, cluster.stacks[j]@) {
        Some(
            "cluster "@ + debug_form(cluster.name@) + " references unknown stack "@ + debug_form(
                cluster.stacks[j]@,
            ),
        )
    } else if referenced_before(cluster.stacks@, j) {
        Some(
            "cluster "@ + debug_form(cluster.name@) + ": stack "@ + debug_form(cluster.stacks[j]@)
                + " referenced more than once"@,
        )
    } else {
        stack_refs_complaint(cluster, stacks, j + 1)
    }
}

/// What is wrong with the stack references of the clusters from position `i` on.
pub open spec fn cluster_stack_refs_complaint(
    clusters: Seq<ClusterSpec>,
    stacks: Seq<(Seq<char>, StackSpec)>,
    i: int,
) -> Complaint
    decreases clusters.len() - i,
{
    if i < 0 || i >= clusters.len() {
        None
    } else {
        first_complaint(
            stack_refs_complaint(clusters[i], stacks, 0),
            cluster_stack_refs_complaint(clusters, stacks, i + 1),
        )
    }
}

fn is_referenced_before(refs: &Vec<String>, j: usize) -> (r: bool)
    requires
        j < refs@.len(),
    ensures
        r == referenced_before(refs@, j as int),
{
    let mut k: usize = 0;
    while k < j
        invariant
            k <= j,
            j < refs@.len(),
            forall|m: int| 0 <= m < k ==> (#[trigger] refs@[m])@ != refs@[j as int]@,
        decreases j - k,
    {
        if same_text(&refs[k], &refs[j]) {
            return true;
        }
        k += 1;
    }
    false
}

fn check_stack_refs(cluster: &ClusterSpec, stacks: &StrMap<StackSpec>) -> (r: Result<
    (),
    ForgeError,
>)
    ensures
        verdict(r, stack_refs_complaint(*cluster, stacks@, 0)),
{
    let mut j: usize = 0;
    while j < cluster.stacks.len()
        invariant
            j <= cluster.stacks@.len(),
            stack_refs_complaint(*cluster, stacks@, 0) == stack_refs_complaint(
                *cluster,
                stacks@,
                j as int,
            ),
        decreases cluster.stacks.len() - j,
    {
        let stack_ref = &cluster.stacks[j];
        if !stacks.contains_key(stack_ref) {
            return invalid(
                join4(
                    "cluster ",
                    &quoted(&cluster.name),
                    " references unknown stack ",
                    &quoted(stack_ref),
                ),
            );
        }
        if is_referenced_before(&cluster.stacks, j) {
            return invalid(
                join5(
                    "cluster ",
                    &quoted(&cluster.name),
                    ": stack ",
                    &quoted(stack_ref),
                    " referenced more than once",
                ),
            );
        }
        j += 1;
    }
    Ok(())
}

/// Every stack referenced by a cluster must exist in `spec.stacks`,
/// and no cluster may reference the same stack twice.
///
/// A duplicate reference would apply the stack twice per `forge up`,
/// re-running Exec and Capture steps with side effects.
pub fn check_cluster_stack_refs(config: &ForgeConfig) -> (r: Result<(), ForgeError>)
    ensures
        verdict(
            r,
            cluster_stack_refs_complaint(config.spec.clusters@, config.spec.stacks@, 0),
        ),
{
    let clusters = &config.spec.clusters;
    let mut i: usize = 0;
    while i < clusters.len()
        invariant
            clusters@ == config.spec.clusters@,
            i <= clusters@.len(),
            cluster_stack_refs_complaint(clusters@, config.spec.stacks@, 0)
                == cluster_stack_refs_complaint(clusters@, config.spec.stacks@, i as int),
        decreases clusters.len() - i,
    {
        check_stack_refs(&clusters[i], &config.spec.stacks)?;
        i += 1;
    }
    Ok(())
}

} // verus!
