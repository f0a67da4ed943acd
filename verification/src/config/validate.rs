//! Semantic validation rules for the configuration.
//!
//! Each rule is a small function, stated by a complaint: the text of the
//! failure it reports, or nothing. [`validate`] runs them all and reports the
//! first failure.

pub mod clusters;
pub mod deps;
pub mod fields;
pub mod laws;
pub mod messages;
pub mod names;
pub mod order;
pub mod ports;
pub mod report;
pub mod rules;
pub mod services;
pub mod steps;
pub mod templates;

use vstd::prelude::*;
use crate::config::validate::clusters::{
    check_cluster_names, check_cluster_nodes, check_cluster_ports, check_cluster_prefix,
    check_cluster_stack_refs, cluster_names_complaint, cluster_nodes_complaint,
    cluster_ports_complaint, cluster_prefix_complaint, cluster_stack_refs_complaint,
};
use crate::config::validate::deps::{
    auto_start_complaint, check_service_auto_start_deps, check_service_dep_cycles,
    check_service_deps, cycle_complaint, has_dep_cycle, provider, service_deps_complaint,
};
use crate::config::validate::names::{
    check_dns_label, check_docker_name, dns_label_complaint, dns_zone_complaint,
    docker_name_complaint, validate_dns_zone_rules,
};
use crate::config::validate::ports::{all_claims, check_host_port_conflicts, claims_complaint};
use crate::config::validate::rules::{law_accepted_iff_every_rule_is_met, meets_every_rule};
use crate::config::validate::services::{
    check_service_names, check_services, in_service, service_context, service_names_complaint,
    services_complaint,
};
use crate::config::validate::steps::{check_step, in_stack, stack_context, steps_complaint};
use crate::config::validate::templates::{check_no_templates, templates_complaint};
use crate::config::{
    EnvironmentSpec, ForgeConfig, NetworkConfig, NetworkMode, RuntimeProvider, ServiceSpec,
    StackSpec, StepSpec, API_VERSION, KIND,
};
use crate::error::{first_complaint, invalid, verdict, Complaint, ForgeError};
use crate::naming::{network_name, network_name_of};
use crate::text::{debug_form, join4, quoted, same_text};

verus! {

// ---------------------------------------------------------------
// Identity
// ---------------------------------------------------------------

/// What is wrong with the schema version.
pub open spec fn api_version_complaint(config: ForgeConfig) -> Complaint {
    if config.api_version@ == API_VERSION@ {
        None
    } else {
        Some(
            "expected apiVersion "@ + debug_form(API_VERSION@) + ", got "@ + debug_form(
                config.api_version@,
            ),
        )
    }
}

/// `apiVersion` must match the current schema.
pub fn check_api_version(config: &ForgeConfig) -> (r: Result<(), ForgeError>)
    ensures
        verdict(r, api_version_complaint(*config)),
{
    if !same_text(&config.api_version, API_VERSION) {
        return invalid(
            join4(
                "expected apiVersion ",
                &quoted(API_VERSION),
                ", got ",
                &quoted(&config.api_version),
            ),
        );
    }
    Ok(())
}

/// What is wrong with the document kind.
pub open spec fn kind_complaint(config: ForgeConfig) -> Complaint {
    if config.kind@ == KIND@ {
        None
    } else {
        Some("expected kind "@ + debug_form(KIND@) + ", got "@ + debug_form(config.kind@))
    }
}

/// `kind` must be `"Environment"`.
pub fn check_kind(config: &ForgeConfig) -> (r: Result<(), ForgeError>)
    ensures
        verdict(r, kind_complaint(*config)),
{
    if !same_text(&config.kind, KIND) {
        return invalid(join4("expected kind ", &quoted(KIND), ", got ", &quoted(&config.kind)));
    }
    Ok(())
}

/// `metadata.name` must be a DNS label.
pub fn check_metadata_name(name: &str) -> (r: Result<(), ForgeError>)
    ensures
        verdict(r, dns_label_complaint(name@, "metadata.name"@)),
{
    check_dns_label(name, "metadata.name")
}

/// True when the clusters are to share a network.
pub open spec fn wants_cross_cluster(network: Option<NetworkConfig>) -> bool {
    network matches Some(n) && n.cross_cluster
}

/// Decides whether the clusters are to share a network.
pub fn is_cross_cluster(network: &Option<NetworkConfig>) -> (r: bool)
    ensures
        r == wants_cross_cluster(*network),
{
    match network {
        Some(n) => n.cross_cluster,
        None => false,
    }
}

/// What is wrong with the name of the shared network.
pub open spec fn network_name_complaint(env: Seq<char>, spec: EnvironmentSpec) -> Complaint {
    if wants_cross_cluster(spec.network) {
        docker_name_complaint(network_name_of(env), "derived network name"@)
    } else {
        None
    }
}

/// Derived network name must be safe for Docker/Podman.
pub fn check_network_name(env_name: &str, spec: &EnvironmentSpec) -> (r: Result<(), ForgeError>)
    ensures
        verdict(r, network_name_complaint(env_name@, *spec)),
{
    if !is_cross_cluster(&spec.network) {
        return Ok(());
    }
    let derived = network_name(env_name);
    check_docker_name(&derived, "derived network name")
}

// ---------------------------------------------------------------
// Stacks
// ---------------------------------------------------------------

/// What is wrong with the stack names from position `i` on.
pub open spec fn stack_names_complaint(stacks: Seq<(Seq<char>, StackSpec)>, i: int) -> Complaint
    decreases stacks.len() - i,
{
    if i < 0 || i >= stacks.len() {
        None
    } else {
        first_complaint(
            dns_label_complaint(stacks[i].0, "stack"@),
            stack_names_complaint(stacks, i + 1),
        )
    }
}

/// Stack names must be DNS-label-valid.
pub fn check_stack_names(config: &ForgeConfig) -> (r: Result<(), ForgeError>)
    ensures
        verdict(r, stack_names_complaint(config.spec.stacks@, 0)),
{
    let stacks = &config.spec.stacks;
    let mut i: usize = 0;
    while i < stacks.len()
        invariant
            stacks@ == config.spec.stacks@,
            i <= stacks@.len(),
            stack_names_complaint(stacks@, 0) == stack_names_complaint(stacks@, i as int),
        decreases stacks@.len() - i,
    {
        check_dns_label(stacks.key_at(i), "stack")?;
        i += 1;
    }
    Ok(())
}

/// What is wrong with the steps of the stacks from position `i` on.
pub open spec fn stack_steps_complaint(stacks: Seq<(Seq<char>, StackSpec)>, i: int) -> Complaint
    decreases stacks.len() - i,
{
    if i < 0 || i >= stacks.len() {
        None
    } else {
        first_complaint(
            steps_complaint(stacks[i].0, stacks[i].1.steps, 0),
            stack_steps_complaint(stacks, i + 1),
        )
    }
}

/// Validate every declared stack step.
pub fn check_stack_steps(config: &ForgeConfig) -> (r: Result<(), ForgeError>)
    ensures
        verdict(r, stack_steps_complaint(config.spec.stacks@, 0)),
{
    let stacks = &config.spec.stacks;
    let mut i: usize = 0;
    while i < stacks.len()
        invariant
            stacks@ == config.spec.stacks@,
            i <= stacks@.len(),
            stack_steps_complaint(stacks@, 0) == stack_steps_complaint(stacks@, i as int),
        decreases stacks@.len() - i,
    {
        let stack_name = stacks.key_at(i);
        let stack = stacks.value_at(i);
        let mut j: usize = 0;
        while j < stack.steps.len()
            invariant
                stacks@ == config.spec.stacks@,
                i < stacks@.len(),
                stack_name@ == stacks@[i as int].0,
                *stack == stacks@[i as int].1,
                j <= stack.steps@.len(),
                stack_steps_complaint(stacks@, 0) == first_complaint(
                    steps_complaint(stack_name@, stack.steps, j as int),
                    stack_steps_complaint(stacks@, i + 1),
                ),
            decreases stack.steps.len() - j,
        {
            check_step(stack_name, &stack.steps[j])?;
            j += 1;
        }
        i += 1;
    }
    Ok(())
}

// ---------------------------------------------------------------
// Network
// ---------------------------------------------------------------

/// What is wrong with the configured DNS zone.
pub open spec fn configured_zone_complaint(config: ForgeConfig) -> Complaint {
    match config.spec.network {
        Some(network) => match network.dns_zone {
            Some(zone) => dns_zone_complaint(zone@),
            None => None,
        },
        None => None,
    }
}

/// Validate `spec.network.dnsZone` when set.
pub fn check_dns_zone(config: &ForgeConfig) -> (r: Result<(), ForgeError>)
    ensures
        verdict(r, configured_zone_complaint(*config)),
{
    if let Some(network) = &config.spec.network {
        if let Some(zone) = &network.dns_zone {
            return validate_dns_zone_rules(zone);
        }
    }
    Ok(())
}

/// True when a step forwards a DNS zone, or repeats a step that does.
pub open spec fn step_forwards_dns(step: StepSpec) -> bool
    decreases step,
{
    match step {
        StepSpec::CoreDnsForward { .. } => true,
        StepSpec::ForEach { steps, .. } => exists|j: int|
            0 <= j < steps.len() && step_forwards_dns(#[trigger] steps[j]),
        _ => false,
    }
}

/// True when some step of a list forwards a DNS zone.
pub open spec fn steps_forward_dns(steps: Seq<StepSpec>) -> bool {
    exists|j: int| 0 <= j < steps.len() && step_forwards_dns(#[trigger] steps[j])
}

/// True when some step of a stack forwards a DNS zone.
pub open spec fn forwards_dns(stack: StackSpec) -> bool {
    steps_forward_dns(stack.steps@)
}

/// Decides whether a step forwards a DNS zone, or repeats a step that does.
pub fn is_forwarding_step(step: &StepSpec) -> (r: bool)
    ensures
        r == step_forwards_dns(*step),
    decreases step,
{
    match step {
        StepSpec::CoreDnsForward { .. } => true,
        StepSpec::ForEach { steps, .. } => has_forwarding_step(steps),
        _ => false,
    }
}

fn has_forwarding_step(steps: &Vec<StepSpec>) -> (r: bool)
    ensures
        r == steps_forward_dns(steps@),
    decreases steps,
{
    let mut j: usize = 0;
    while j < steps.len()
        invariant
            j <= steps@.len(),
            forall|k: int| 0 <= k < j ==> !step_forwards_dns(#[trigger] steps@[k]),
        decreases steps.len() - j,
    {
        if is_forwarding_step(&steps[j]) {
            assert(step_forwards_dns(steps@[j as int]));
            return true;
        }
        j += 1;
    }
    false
}

/// What is wrong with the stacks from position `i` on where the clusters
/// share no network.
pub open spec fn forwarding_complaint(stacks: Seq<(Seq<char>, StackSpec)>, i: int) -> Complaint
    decreases stacks.len() - i,
{
    if i < 0 || i >= stacks.len() {
        None
    } else if forwards_dns(stacks[i].1) {
        Some(
            stack_context(
                stacks[i].0,
                "core-dns-forward requires spec.network.crossCluster: true"@,
            ),
        )
    } else {
        forwarding_complaint(stacks, i + 1)
    }
}

/// What is wrong with DNS forwarding.
pub open spec fn coredns_complaint(config: ForgeConfig) -> Complaint {
    if wants_cross_cluster(config.spec.network) {
        None
    } else {
        forwarding_complaint(config.spec.stacks@, 0)
    }
}

/// Any `CoreDnsForward` step, a repeated one too, requires
/// `spec.network.crossCluster: true`.
pub fn check_coredns_requires_cross_cluster(config: &ForgeConfig) -> (r: Result<(), ForgeError>)
    ensures
        verdict(r, coredns_complaint(*config)),
{
    if is_cross_cluster(&config.spec.network) {
        return Ok(());
    }
    let stacks = &config.spec.stacks;
    let mut i: usize = 0;
    while i < stacks.len()
        invariant
            stacks@ == config.spec.stacks@,
            i <= stacks@.len(),
            coredns_complaint(*config) == forwarding_complaint(stacks@, i as int),
        decreases stacks@.len() - i,
    {
        if has_forwarding_step(&stacks.value_at(i).steps) {
            return invalid(
                in_stack(
                    stacks.key_at(i),
                    "core-dns-forward requires spec.network.crossCluster: true",
                ),
            );
        }
        i += 1;
    }
    Ok(())
}

/// What is wrong with the services from position `i` on where the clusters
/// share no network.
pub open spec fn attached_complaint(services: Seq<ServiceSpec>, i: int) -> Complaint
    decreases services.len() - i,
{
    if i < 0 || i >= services.len() {
        None
    } else if services[i].network == NetworkMode::Environment {
        Some(
            service_context(
                services[i].name@,
                "network: environment requires spec.network.crossCluster: true"@,
            ),
        )
    } else {
        attached_complaint(services, i + 1)
    }
}

/// What is wrong with attachments to the shared network.
pub open spec fn environment_network_complaint(config: ForgeConfig) -> Complaint {
    if wants_cross_cluster(config.spec.network) {
        None
    } else {
        attached_complaint(config.spec.services@, 0)
    }
}

/// Any `network: environment` service requires `spec.network.crossCluster: true`.
///
/// Such a service is attached to the shared `{env}-net` container
/// network, which `forge up` only creates when cross-cluster networking
/// is enabled; without this rule the mismatch surfaces as a raw
/// "network not found" docker error after clusters were already created.
pub fn check_environment_network_requires_cross_cluster(config: &ForgeConfig) -> (r: Result<
    (),
    ForgeError,
>)
    ensures
        verdict(r, environment_network_complaint(*config)),
{
    if is_cross_cluster(&config.spec.network) {
        return Ok(());
    }
    let services = &config.spec.services;
    let mut i: usize = 0;
    while i < services.len()
        invariant
            services@ == config.spec.services@,
            i <= services@.len(),
            environment_network_complaint(*config) == attached_complaint(services@, i as int),
        decreases services.len() - i,
    {
        if services[i].network == NetworkMode::Environment {
            return invalid(
                in_service(
                    &services[i].name,
                    "network: environment requires spec.network.crossCluster: true",
                ),
            );
        }
        i += 1;
    }
    Ok(())
}

/// What is wrong with the runtime provider.
pub open spec fn provider_complaint(config: ForgeConfig) -> Complaint {
    if wants_cross_cluster(config.spec.network) && config.spec.runtime.provider
        == RuntimeProvider::Podman {
        Some(
            "cross-cluster networking requires Docker; Podman is not supported in this phase"@,
        )
    } else {
        None
    }
}

/// Cross-cluster networking requires Docker; reject explicit Podman.
pub fn check_cross_cluster_provider(config: &ForgeConfig) -> (r: Result<(), ForgeError>)
    ensures
        verdict(r, provider_complaint(*config)),
{
    if !is_cross_cluster(&config.spec.network) {
        return Ok(());
    }
    if config.spec.runtime.provider == RuntimeProvider::Podman {
        return invalid(
            "cross-cluster networking requires Docker; Podman is not supported in this phase".to_owned(),
        );
    }
    Ok(())
}

// ---------------------------------------------------------------
// Certificates
// ---------------------------------------------------------------

/// What is wrong with the certificate settings.
pub open spec fn certificates_complaint(config: ForgeConfig) -> Complaint {
    match config.spec.certificates {
        Some(certs) => if certs.enabled {
            Some(
                "certificates.enabled: certificate generation is not implemented in this phase"@,
            )
        } else {
            None
        },
        None => None,
    }
}

/// Certificate generation is reserved for a future phase; reject an
/// enabled setting rather than silently ignoring it.
///
/// No code outside the config model reads `spec.certificates`, so a
/// user enabling it would otherwise get a passing validation and no
/// CA or site certificates, with nothing saying the feature is
/// unimplemented.
pub fn check_certificates_not_implemented(config: &ForgeConfig) -> (r: Result<(), ForgeError>)
    ensures
        verdict(r, certificates_complaint(*config)),
{
    if let Some(certs) = &config.spec.certificates {
        if certs.enabled {
            return invalid(
                "certificates.enabled: certificate generation is not implemented in this phase".to_owned(),
            );
        }
    }
    Ok(())
}

// ---------------------------------------------------------------
// All rules
// ---------------------------------------------------------------

/// The first complaint about what the document is.
pub open spec fn identity_complaint(config: ForgeConfig) -> Complaint {
    first_complaint(
        api_version_complaint(config),
        first_complaint(
            kind_complaint(config),
            first_complaint(
                dns_label_complaint(config.metadata.name@, "metadata.name"@),
                network_name_complaint(config.metadata.name@, config.spec),
            ),
        ),
    )
}

/// The first complaint about the clusters.
pub open spec fn all_clusters_complaint(config: ForgeConfig) -> Complaint {
    first_complaint(
        cluster_names_complaint(config.spec.clusters@, 0),
        first_complaint(
            cluster_prefix_complaint(config),
            first_complaint(
                cluster_nodes_complaint(config.spec.clusters@, 0),
                cluster_ports_complaint(config.spec.clusters@, 0),
            ),
        ),
    )
}

/// The first complaint about the services.
pub open spec fn all_services_complaint(config: ForgeConfig) -> Complaint {
    first_complaint(
        service_names_complaint(config.spec.services@, 0),
        first_complaint(
            services_complaint(config.spec.services@, 0),
            first_complaint(
                service_deps_complaint(config.spec.services@, 0),
                first_complaint(
                    auto_start_complaint(config.spec.services@, 0),
                    cycle_complaint(has_dep_cycle(config.spec.services@)),
                ),
            ),
        ),
    )
}

/// The first complaint about the stacks.
pub open spec fn all_stacks_complaint(config: ForgeConfig) -> Complaint {
    first_complaint(
        stack_names_complaint(config.spec.stacks@, 0),
        first_complaint(
            cluster_stack_refs_complaint(config.spec.clusters@, config.spec.stacks@, 0),
            stack_steps_complaint(config.spec.stacks@, 0),
        ),
    )
}

/// The first complaint about the environment as a whole.
pub open spec fn environment_complaint(config: ForgeConfig) -> Complaint {
    first_complaint(
        configured_zone_complaint(config),
        first_complaint(
            coredns_complaint(config),
            first_complaint(
                environment_network_complaint(config),
                first_complaint(
                    provider_complaint(config),
                    first_complaint(certificates_complaint(config), templates_complaint(config)),
                ),
            ),
        ),
    )
}

/// The first complaint about a configuration.
pub open spec fn validation_complaint(config: ForgeConfig) -> Complaint {
    first_complaint(
        identity_complaint(config),
        first_complaint(
            all_clusters_complaint(config),
            first_complaint(
                all_services_complaint(config),
                first_complaint(
                    claims_complaint(all_claims(config), 0),
                    first_complaint(all_stacks_complaint(config), environment_complaint(config)),
                ),
            ),
        ),
    )
}

/// Run all validation rules against a parsed configuration.
///
/// # Errors
///
/// Returns [`ForgeError::Validation`] with the complaint of the first rule
/// that fails.
pub fn validate(config: &ForgeConfig) -> (r: Result<(), ForgeError>)
    ensures
        verdict(r, validation_complaint(*config)),
        r is Ok <==> meets_every_rule(*config),
{
    proof {
        law_accepted_iff_every_rule_is_met(*config);
    }
    check_api_version(config)?;
    check_kind(config)?;
    check_metadata_name(&config.metadata.name)?;
    check_network_name(&config.metadata.name, &config.spec)?;
    check_cluster_names(config)?;
    check_cluster_prefix(config)?;
    check_cluster_nodes(config)?;
    check_cluster_ports(config)?;
    check_service_names(config)?;
    check_services(config)?;
    check_service_deps(config)?;
    check_service_auto_start_deps(config)?;
    check_service_dep_cycles(config)?;
    check_host_port_conflicts(config)?;
    check_stack_names(config)?;
    check_cluster_stack_refs(config)?;
    check_stack_steps(config)?;
    check_dns_zone(config)?;
    check_coredns_requires_cross_cluster(config)?;
    check_environment_network_requires_cross_cluster(config)?;
    check_cross_cluster_provider(config)?;
    check_certificates_not_implemented(config)?;
    check_no_templates(config)?;
    Ok(())
}

} // verus!
