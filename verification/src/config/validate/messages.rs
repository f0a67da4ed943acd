//! What validation says of a broken rule.

use vstd::prelude::*;
use crate::config::validate::clusters::{
    cluster_names_complaint, cluster_node_complaint, cluster_port_complaint, stack_refs_complaint,
};
use crate::config::validate::deps::{
    auto_deps_of_complaint, cycle_complaint, deps_of_complaint, provider,
};
use crate::config::validate::fields::{
    duration_complaint, non_blank_complaint, option_like_complaint, relative_path_complaint,
    sha256_complaint,
};
use crate::config::validate::names::{
    dns_label_complaint, dns_zone_complaint, docker_name_complaint,
};
use crate::config::validate::report::{of_cluster, of_service, of_stack};
use crate::config::validate::rules::{
    is_digest, is_identifier, is_label, is_numeral, is_reachable, is_resource_name, is_stack_name,
    is_zone, law_published_health_ports_are_accepted, lemma_digest, lemma_identifier, lemma_label,
    lemma_numeral, lemma_resource_name, lemma_suffix, lemma_zone, shares_network,
};
use crate::config::validate::services::{
    env_key_complaint, health_check_complaint, health_port_complaint, service_args_complaint,
    service_image_complaint, service_names_complaint, service_port_complaint,
    volume_target_complaint,
};
use crate::config::validate::steps::{step_complaint, upstream_port_complaint};
use crate::config::validate::{
    attached_complaint, certificates_complaint, forwarding_complaint, forwards_dns,
    provider_complaint,
};
use crate::config::{
    ClusterSpec, ForgeConfig, HealthCheck, NetworkMode, PortMapping, RuntimeProvider, ServiceSpec,
    StackSpec, StepSpec,
};
use crate::ip::ip_value;
use crate::numeral::decimal;
use crate::strmap::has_key;
use crate::text::{all_in, before_suffix, byte_len, debug_form, is_blank, CharClass};

verus! {

// ---------------------------------------------------------------
// Names
// ---------------------------------------------------------------

/// What is said of a text that is no DNS label: the context, the text, and the
/// first of the conditions that it does not meet.
pub proof fn law_bad_labels_are_described(name: Seq<char>, context: Seq<char>)
    requires
        !is_label(name),
    ensures
        dns_label_complaint(name, context) == Some(
            if name.len() == 0 {
                context + ": name must not be empty"@
            } else if byte_len(name) > 63 {
                context + ": "@ + debug_form(name) + " exceeds 63 characters"@
            } else if exists|i: int|
                0 <= i < name.len() && !('a' <= #[trigger] name[i] <= 'z' || '0' <= name[i] <= '9'
                    || name[i] == '-') {
                context + ": "@ + debug_form(name)
                    + " contains invalid characters (allowed: lowercase alphanumeric and hyphens)"@
            } else {
                context + ": "@ + debug_form(name) + " must not start or end with a hyphen"@
            },
        ),
{
    lemma_label(name, context);
    if exists|i: int|
        0 <= i < name.len() && !('a' <= #[trigger] name[i] <= 'z' || '0' <= name[i] <= '9'
            || name[i] == '-') {
        let i = choose|i: int|
            0 <= i < name.len() && !('a' <= #[trigger] name[i] <= 'z' || '0' <= name[i] <= '9'
                || name[i] == '-');
        assert(!crate::text::in_class(CharClass::Label, name[i]));
    } else {
        assert(all_in(CharClass::Label, name));
    }
}

/// What is said of a name that the container runtime does not take.
pub proof fn law_bad_resource_names_are_described(name: Seq<char>, context: Seq<char>)
    requires
        !is_resource_name(name),
    ensures
        docker_name_complaint(name, context) == Some(
            context + ": "@ + debug_form(name) + if name.len() == 0 || byte_len(name) > 128 {
                " must be 1\u{2013}128 characters"@
            } else {
                " contains characters unsafe for Docker/Podman"@
            },
        ),
{
    lemma_resource_name(name, context);
}

/// What is said of a text that is no DNS zone.
pub proof fn law_bad_zones_are_described(zone: Seq<char>)
    requires
        !is_zone(zone),
    ensures
        dns_zone_complaint(zone) == Some(
            if zone.len() == 0 || byte_len(zone) > 253 {
                "dnsZone must be 1-253 characters"@
            } else if exists|i: int|
                0 <= i < zone.len() && !('a' <= #[trigger] zone[i] <= 'z' || '0' <= zone[i] <= '9'
                    || zone[i] == '-' || zone[i] == '.') {
                "dnsZone must contain only lowercase alphanumeric, hyphens, and dots"@
            } else if zone[0] == '.' || zone[0] == '-' || zone[zone.len() - 1] == '.'
                || zone[zone.len() - 1] == '-' {
                "dnsZone must not start or end with a dot or hyphen"@
            } else {
                "dnsZone must contain at least one dot"@
            },
        ),
{
    lemma_zone(zone);
    if exists|i: int|
        0 <= i < zone.len() && !('a' <= #[trigger] zone[i] <= 'z' || '0' <= zone[i] <= '9'
            || zone[i] == '-' || zone[i] == '.') {
        let i = choose|i: int|
            0 <= i < zone.len() && !('a' <= #[trigger] zone[i] <= 'z' || '0' <= zone[i] <= '9'
                || zone[i] == '-' || zone[i] == '.');
        assert(!crate::text::in_class(CharClass::Zone, zone[i]));
    } else {
        assert(all_in(CharClass::Zone, zone));
    }
}

// ---------------------------------------------------------------
// Fields
// ---------------------------------------------------------------

/// What is said of a field that is blank, looks like an option, leads out of the
/// configuration root, or is no digest.
pub proof fn law_bad_fields_are_described(value: Seq<char>, context: Seq<char>)
    ensures
        is_blank(value) ==> non_blank_complaint(value, context) == Some(
            context + ": must not be blank"@,
        ),
        value.len() > 0 && value[0] == '-' ==> option_like_complaint(value, context) == Some(
            context + ": must not start with '-'"@,
        ),
        is_blank(value) ==> relative_path_complaint(value, context) == Some(
            context + ": must not be blank"@,
        ),
        !is_blank(value) && (value[0] == '/' || crate::text::split_on(value, '/').contains(".."@))
            ==> relative_path_complaint(value, context) == Some(
            context + ": path must be relative and must not escape the config root"@,
        ),
        !is_digest(value) ==> sha256_complaint(value, context) == Some(
            context + ": expected a 64-character SHA-256 hex digest"@,
        ),
{
    lemma_digest(value, context);
}

/// What is said of a text that is no duration: that it has no unit, that its amount
/// is no positive number, or by how much it goes beyond a day.
pub proof fn law_bad_durations_are_described(
    value: Seq<char>,
    amount: Seq<char>,
    n: nat,
    context: Seq<char>,
)
    ensures
        before_suffix(value, "ms"@) is None && before_suffix(value, "s"@) is None
            ==> duration_complaint(value, context) == Some(
            context + ": "@ + debug_form(value) + " must end in \"s\" or \"ms\""@,
        ),
        value == amount + "ms"@ && is_numeral(amount, n) && 86_400_000 < n <= u64::MAX
            ==> duration_complaint(value, context) == Some(
            context + ": must not exceed "@ + decimal(86_400_000) + "ms"@,
        ),
        value == amount + "ms"@ && is_numeral(amount, 0) ==> duration_complaint(value, context)
            == Some(context + ": expected a positive integer"@),
        value == amount + "ms"@ && (forall|k: nat| !#[trigger] is_numeral(amount, k))
            ==> duration_complaint(value, context) == Some(
            context + ": expected a positive integer"@,
        ),
{
    lemma_suffix(value, "ms"@, amount);
    lemma_numeral(amount, u64::MAX as nat);
}

/// What is said of a port of an upstream that is out of range.
pub proof fn law_bad_upstream_ports_are_described(port: Seq<char>, n: nat, context: Seq<char>)
    requires
        is_numeral(port, n),
        n == 0 || n > 65535,
        n <= u32::MAX,
    ensures
        upstream_port_complaint(port, context) == Some(
            context + ": port "@ + decimal(n) + " must be 1\u{2013}65535"@,
        ),
{
    lemma_numeral(port, u32::MAX as nat);
}

// ---------------------------------------------------------------
// Clusters
// ---------------------------------------------------------------

/// What is said of bad node counts, of a bad port mapping, and of a stack that is
/// not configured or referred to twice.
pub proof fn law_bad_clusters_are_described(
    cluster: ClusterSpec,
    port: PortMapping,
    stacks: Seq<(Seq<char>, StackSpec)>,
    j: int,
)
    ensures
        cluster.nodes.control_planes == 0 || cluster.nodes.control_planes > 9
            ==> cluster_node_complaint(cluster) == Some(
            of_cluster(cluster.name@) + ("controlPlanes must be 1..="@ + decimal(9)),
        ),
        1 <= cluster.nodes.control_planes <= 9 && cluster.nodes.workers > 100
            ==> cluster_node_complaint(cluster) == Some(
            of_cluster(cluster.name@) + ("workers must not exceed "@ + decimal(100)),
        ),
        port.host == 0 || port.container == 0 ==> cluster_port_complaint(port, cluster.name@)
            == Some(
            of_cluster(cluster.name@)
                + "port mapping host and container ports must not be zero"@,
        ),
        port.host != 0 && port.container != 0 && (port.bind_address matches Some(text) && ip_value(
            text@,
        ) is None) ==> cluster_port_complaint(port, cluster.name@) == Some(
            of_cluster(cluster.name@) + ("bind address "@ + debug_form(port.bind_address->0@)
                + " is not a valid IP"@),
        ),
        0 <= j < cluster.stacks@.len() && !is_stack_name(stacks, cluster.stacks@[j]@)
            ==> stack_refs_complaint(cluster, stacks, j) == Some(
            "cluster "@ + debug_form(cluster.name@) + " references unknown stack "@ + debug_form(
                cluster.stacks@[j]@,
            ),
        ),
{
    if 0 <= j < cluster.stacks@.len() {
        assert(has_key(stacks, cluster.stacks@[j]@) <==> is_stack_name(
            stacks,
            cluster.stacks@[j]@,
        ));
    }
}

/// What is said of a name that two clusters or two services share.
pub proof fn law_shared_names_are_described(
    clusters: Seq<ClusterSpec>,
    services: Seq<ServiceSpec>,
    i: int,
    j: int,
)
    requires
        0 <= j < i,
    ensures
        i < clusters.len() && is_label(clusters[i].name@) && clusters[j].name@ == clusters[i].name@
            ==> cluster_names_complaint(clusters, i) == Some(
            "duplicate cluster name: "@ + debug_form(clusters[i].name@),
        ),
        i < services.len() && is_label(services[i].name@) && services[j].name@ == services[i].name@
            ==> service_names_complaint(services, i) == Some(
            "duplicate service name: "@ + debug_form(services[i].name@),
        ),
{
    if i < clusters.len() {
        lemma_label(clusters[i].name@, "cluster"@);
    }
    if i < services.len() {
        lemma_label(services[i].name@, "service"@);
    }
}

// ---------------------------------------------------------------
// Services
// ---------------------------------------------------------------

/// What is said of a bad image, port mapping, volume target, environment key,
/// argument list and health check of a service.
pub proof fn law_bad_services_are_described(
    svc: ServiceSpec,
    port: PortMapping,
    target: Seq<char>,
    key: Seq<char>,
    hc: HealthCheck,
)
    ensures
        ({
            let front = of_service(svc.name@);
            &&& !is_blank(svc.image@) && byte_len(svc.image@) > 512 ==> service_image_complaint(svc)
                == Some(front + "image"@ + ": exceeds 512 characters"@)
            &&& port.host == 0 ==> service_port_complaint(port, svc.name@) == Some(
                front + ("host"@ + " port must not be zero"@),
            )
            &&& port.host != 0 && port.container == 0 ==> service_port_complaint(port, svc.name@)
                == Some(front + ("container"@ + " port must not be zero"@))
            &&& target.len() == 0 ==> volume_target_complaint(target, svc.name@) == Some(
                front + "volume target must not be empty"@,
            )
            &&& target.len() > 0 && target[0] != '/' ==> volume_target_complaint(target, svc.name@)
                == Some(front + "volume target must be an absolute path"@)
            &&& key.len() == 0 ==> env_key_complaint(key, svc.name@) == Some(
                front + "environment key must not be empty"@,
            )
            &&& key.len() > 0 && byte_len(key) > 256 ==> env_key_complaint(key, svc.name@) == Some(
                front + "environment key exceeds 256 characters"@,
            )
            &&& key.len() > 0 && byte_len(key) <= 256 && !is_identifier(key) ==> env_key_complaint(
                key,
                svc.name@,
            ) == Some(
                front + ("environment key "@ + debug_form(key) + " is not a valid identifier"@),
            )
            &&& svc.args@.len() > 128 ==> service_args_complaint(svc) == Some(
                front + "more than 128 args"@,
            )
            &&& hc.port == 0 ==> health_check_complaint(hc, svc.name@) == Some(
                front + "health check port must not be zero"@,
            )
            &&& hc.port != 0 && (hc.retries == 0 || hc.retries > 300) ==> health_check_complaint(
                hc,
                svc.name@,
            ) == Some(front + "health check retries must be 1..=300"@)
            &&& !is_reachable(svc, hc.port) ==> health_port_complaint(svc, hc) == Some(
                front + ("health check port "@ + decimal(hc.port as nat)
                    + " must match a published tcp container port unless network is host"@),
            )
        }),
{
    lemma_identifier(key);
    law_published_health_ports_are_accepted(svc, hc);
}

/// What is said of a dependency that is the service itself, is not configured, or
/// is not started automatically though the service is; and of a circle.
pub proof fn law_bad_dependencies_are_described(services: Seq<ServiceSpec>, i: int, k: int)
    requires
        0 <= i < services.len(),
        0 <= k < services[i].depends_on@.len(),
    ensures
        ({
            let front = of_service(services[i].name@);
            let dep = services[i].depends_on@[k]@;
            &&& dep == services[i].name@ ==> deps_of_complaint(services, i, k) == Some(
                front + "depends on itself"@,
            )
            &&& dep != services[i].name@ && provider(services, dep) is None ==> deps_of_complaint(
                services,
                i,
                k,
            ) == Some(front + ("depends on unknown service "@ + debug_form(dep)))
            &&& (provider(services, dep) matches Some(j) && !services[j].auto_start)
                ==> auto_deps_of_complaint(services, i, k) == Some(
                front + ("auto-started service depends on non-auto-start service "@ + debug_form(
                    dep,
                )),
            )
            &&& cycle_complaint(true) == Some("service dependency cycle detected"@)
        }),
{
}

// ---------------------------------------------------------------
// Environment
// ---------------------------------------------------------------

/// What is said where clusters share no network but a stack forwards DNS or a
/// service is on the network, where they share one but Podman is asked for, and
/// where certificates are enabled.
pub proof fn law_bad_environments_are_described(config: ForgeConfig, i: int)
    ensures
        0 <= i < config.spec.stacks@.len() && forwards_dns(config.spec.stacks@[i].1)
            ==> forwarding_complaint(config.spec.stacks@, i) == Some(
            of_stack(config.spec.stacks@[i].0)
                + "core-dns-forward requires spec.network.crossCluster: true"@,
        ),
        0 <= i < config.spec.services@.len() && config.spec.services@[i].network
            == NetworkMode::Environment ==> attached_complaint(config.spec.services@, i) == Some(
            of_service(config.spec.services@[i].name@)
                + "network: environment requires spec.network.crossCluster: true"@,
        ),
        shares_network(config) && config.spec.runtime.provider == RuntimeProvider::Podman
            ==> provider_complaint(config) == Some(
            "cross-cluster networking requires Docker; Podman is not supported in this phase"@,
        ),
        (config.spec.certificates matches Some(certificates) && certificates.enabled)
            ==> certificates_complaint(config) == Some(
            "certificates.enabled: certificate generation is not implemented in this phase"@,
        ),
{
}

/// What is said of a step that repeats nothing, runs nothing, forwards to nobody,
/// serves no port or fetches without encryption.
pub proof fn law_bad_steps_are_described(stack: Seq<char>, step: StepSpec)
    ensures
        ({
            let front = of_stack(stack);
            &&& step matches StepSpec::ForEach { property, steps } ==> !is_blank(property@)
                && steps@.len() == 0 ==> step_complaint(stack, step) == Some(
                front + "for-each steps must not be empty"@,
            )
            &&& step matches StepSpec::Exec { command, env } ==> command@.len() == 0
                ==> step_complaint(stack, step) == Some(front + "exec command must not be empty"@)
            &&& step matches StepSpec::CoreDnsForward { zone, upstreams } ==> is_zone(zone@)
                && upstreams@.len() == 0 ==> step_complaint(stack, step) == Some(
                front + "coredns-forward requires at least one upstream"@,
            )
            &&& step matches StepSpec::Service { name, port, namespace } ==> is_label(name@) && port
                == 0 && namespace is None ==> step_complaint(stack, step) == Some(
                front + "service port must not be zero"@,
            )
            &&& step matches StepSpec::Url { url, sha256 } ==> !is_blank(url@)
                && !crate::text::begins_with(url@, "https://"@) ==> step_complaint(stack, step)
                == Some(front + "remote manifest URLs must use https"@)
        }),
{
    reveal_with_fuel(step_complaint, 2);
    if let StepSpec::CoreDnsForward { zone, .. } = step {
        lemma_zone(zone@);
        if is_zone(zone@) {
            assert(!crate::text::is_white_space(zone@[0]));
        }
    }
    if let StepSpec::Service { name, .. } = step {
        lemma_label(
            name@,
            crate::config::validate::steps::stack_context(stack, "service"@ + " name"@),
        );
    }
}

} // verus!
