//! What the JSON form of a configuration tells of the configuration.

use vstd::prelude::*;
use crate::config::document::{
    certificates_json, check_type_word, cluster_json, cluster_list_json, config_json, health_json,
    network_json, network_mode_word, nodes_json, number_json, optional_certificates_json,
    optional_health_json, optional_network_json, port_json, port_list_json, provider_word,
    restart_word, runtime_json, service_json, service_list_json, spec_json, stack_json, stacks_json,
    step_json, step_type_word, steps_json, texts_json, volume_json, volume_list_json,
};
use crate::config::{
    CertificateConfig, ClusterSpec, ForgeConfig, HealthCheck, HealthCheckType, NetworkConfig,
    NetworkMode, NodeConfig, PortMapping, RestartPolicy, RuntimeConfig, RuntimeProvider,
    ServiceSpec, StackSpec, StepSpec, VolumeMount,
};
use crate::json::laws::{
    is_plain, law_numerals_are_unique, law_text_determines_the_value, lemma_decimal_is_number,
};
use crate::json::{compact, map_views, optional_view, text_map_views, Json, JsonView};
use crate::numeral::decimal;
use crate::text::opt_text;

verus! {

// ---------------------------------------------------------------
// Sameness
// ---------------------------------------------------------------

/// True when two lists hold the same texts in the same order.
pub open spec fn same_texts(a: Seq<String>, b: Seq<String>) -> bool {
    &&& a.len() == b.len()
    &&& forall|i: int| 0 <= i < a.len() ==> (#[trigger] a[i])@ == b[i]@
}

/// True when two texts are the same, or both are absent.
pub open spec fn same_optional(a: Option<String>, b: Option<String>) -> bool {
    match (a, b) {
        (Some(x), Some(y)) => x@ == y@,
        (None, None) => true,
        _ => false,
    }
}

/// True when two maps hold the same texts under the same keys.
pub open spec fn same_text_map(a: Seq<(Seq<char>, String)>, b: Seq<(Seq<char>, String)>) -> bool {
    &&& a.len() == b.len()
    &&& forall|i: int| 0 <= i < a.len() ==> (#[trigger] a[i]).0 == b[i].0 && a[i].1@ == b[i].1@
}

/// True when two maps hold the same values under the same keys.
pub open spec fn same_values(a: Seq<(Seq<char>, Json)>, b: Seq<(Seq<char>, Json)>) -> bool {
    &&& a.len() == b.len()
    &&& forall|i: int| 0 <= i < a.len() ==> (#[trigger] a[i]).0 == b[i].0 && a[i].1@ == b[i].1@
}

proof fn lemma_texts(a: Seq<String>, b: Seq<String>)
    ensures
        texts_json(a) == texts_json(b) <==> same_texts(a, b),
{
    let x = texts_json(a)->Array_0;
    let y = texts_json(b)->Array_0;
    assert(x.len() == a.len() && y.len() == b.len());
    if x == y {
        assert forall|i: int| 0 <= i < a.len() implies (#[trigger] a[i])@ == b[i]@ by {
            assert(x[i] == y[i]);
        }
    }
    if same_texts(a, b) {
        assert(x =~= y);
    }
}

proof fn lemma_optional(a: Option<String>, b: Option<String>)
    ensures
        optional_view(opt_text(a)) == optional_view(opt_text(b)) <==> same_optional(a, b),
{
}

proof fn lemma_text_map(a: Seq<(Seq<char>, String)>, b: Seq<(Seq<char>, String)>)
    ensures
        text_map_views(a) == text_map_views(b) <==> same_text_map(a, b),
{
    let x = text_map_views(a);
    let y = text_map_views(b);
    assert(x.len() == a.len() && y.len() == b.len());
    if x == y {
        assert forall|i: int| 0 <= i < a.len() implies (#[trigger] a[i]).0 == b[i].0 && a[i].1@
            == b[i].1@ by {
            assert(x[i] == y[i]);
        }
    }
    if same_text_map(a, b) {
        assert(x =~= y);
    }
}

proof fn lemma_values(a: Seq<(Seq<char>, Json)>, b: Seq<(Seq<char>, Json)>)
    ensures
        map_views(a) == map_views(b) <==> same_values(a, b),
{
    let x = map_views(a);
    let y = map_views(b);
    assert(x.len() == a.len() && y.len() == b.len());
    if x == y {
        assert forall|i: int| 0 <= i < a.len() implies (#[trigger] a[i]).0 == b[i].0 && a[i].1@
            == b[i].1@ by {
            assert(x[i] == y[i]);
        }
    }
    if same_values(a, b) {
        assert(x =~= y);
    }
}

proof fn lemma_numbers(a: nat, b: nat)
    ensures
        number_json(a) == number_json(b) <==> a == b,
{
    if number_json(a) == number_json(b) {
        law_numerals_are_unique(a, b);
    }
}


/// Different runtime providers have different words.
pub proof fn law_provider_words_are_unique(a: RuntimeProvider, b: RuntimeProvider)
    requires
        provider_word(a) == provider_word(b),
    ensures
        a == b,
{
    reveal_strlit("auto");
    assert("auto"@.len() == 4 && "auto"@[0] == 'a');
    reveal_strlit("docker");
    assert("docker"@.len() == 6 && "docker"@[0] == 'd');
    reveal_strlit("podman");
    assert("podman"@.len() == 6 && "podman"@[0] == 'p');
    assert(provider_word(a).len() == provider_word(b).len());
    assert(provider_word(a)[0] == provider_word(b)[0]);
}

/// Different network attachments have different words.
pub proof fn law_network_mode_words_are_unique(a: NetworkMode, b: NetworkMode)
    requires
        network_mode_word(a) == network_mode_word(b),
    ensures
        a == b,
{
    reveal_strlit("none");
    assert("none"@.len() == 4 && "none"@[0] == 'n');
    reveal_strlit("host");
    assert("host"@.len() == 4 && "host"@[0] == 'h');
    reveal_strlit("environment");
    assert("environment"@.len() == 11 && "environment"@[0] == 'e');
    assert(network_mode_word(a).len() == network_mode_word(b).len());
    assert(network_mode_word(a)[0] == network_mode_word(b)[0]);
}

/// Different restart policies have different words.
pub proof fn law_restart_words_are_unique(a: RestartPolicy, b: RestartPolicy)
    requires
        restart_word(a) == restart_word(b),
    ensures
        a == b,
{
    reveal_strlit("no");
    assert("no"@.len() == 2 && "no"@[0] == 'n');
    reveal_strlit("on-failure");
    assert("on-failure"@.len() == 10 && "on-failure"@[0] == 'o');
    reveal_strlit("always");
    assert("always"@.len() == 6 && "always"@[0] == 'a');
    reveal_strlit("unless-stopped");
    assert("unless-stopped"@.len() == 14 && "unless-stopped"@[0] == 'u');
    assert(restart_word(a).len() == restart_word(b).len());
    assert(restart_word(a)[0] == restart_word(b)[0]);
}

/// True when two port mappings agree in every field.
pub open spec fn same_port(a: PortMapping, b: PortMapping) -> bool {
    &&& same_optional(a.bind_address, b.bind_address)
    &&& a.container == b.container
    &&& a.host == b.host
    &&& a.protocol@ == b.protocol@
}

proof fn lemma_port(a: PortMapping, b: PortMapping)
    ensures
        port_json(a) == port_json(b) <==> same_port(a, b),
{
    let x = port_json(a)->Object_0;
    let y = port_json(b)->Object_0;
    assert(x.len() == 4 && y.len() == 4);
    if x == y {
        assert(x[0].1 == y[0].1);
        assert(x[1].1 == y[1].1);
        assert(x[2].1 == y[2].1);
        assert(x[3].1 == y[3].1);
    }
    lemma_optional(a.bind_address, b.bind_address);
    lemma_numbers(a.container as nat, b.container as nat);
    lemma_numbers(a.host as nat, b.host as nat);
    if same_port(a, b) {
        assert(x =~= y);
    }
}

/// True when two node counts agree in every field.
pub open spec fn same_nodes(a: NodeConfig, b: NodeConfig) -> bool {
    &&& a.control_planes == b.control_planes
    &&& a.workers == b.workers
}

proof fn lemma_nodes(a: NodeConfig, b: NodeConfig)
    ensures
        nodes_json(a) == nodes_json(b) <==> same_nodes(a, b),
{
    let x = nodes_json(a)->Object_0;
    let y = nodes_json(b)->Object_0;
    assert(x.len() == 2 && y.len() == 2);
    if x == y {
        assert(x[0].1 == y[0].1);
        assert(x[1].1 == y[1].1);
    }
    lemma_numbers(a.control_planes as nat, b.control_planes as nat);
    lemma_numbers(a.workers as nat, b.workers as nat);
    if same_nodes(a, b) {
        assert(x =~= y);
    }
}

/// True when two volumes agree in every field.
pub open spec fn same_volume(a: VolumeMount, b: VolumeMount) -> bool {
    &&& a.read_only == b.read_only
    &&& a.source@ == b.source@
    &&& a.target@ == b.target@
}

proof fn lemma_volume(a: VolumeMount, b: VolumeMount)
    ensures
        volume_json(a) == volume_json(b) <==> same_volume(a, b),
{
    let x = volume_json(a)->Object_0;
    let y = volume_json(b)->Object_0;
    assert(x.len() == 3 && y.len() == 3);
    if x == y {
        assert(x[0].1 == y[0].1);
        assert(x[1].1 == y[1].1);
        assert(x[2].1 == y[2].1);
    }
    if same_volume(a, b) {
        assert(x =~= y);
    }
}

/// True when two health checks agree in every field.
pub open spec fn same_health(a: HealthCheck, b: HealthCheck) -> bool {
    &&& a.interval@ == b.interval@
    &&& a.port == b.port
    &&& a.retries == b.retries
    &&& a.timeout@ == b.timeout@
    &&& a.check_type == b.check_type
}

proof fn lemma_health(a: HealthCheck, b: HealthCheck)
    ensures
        health_json(a) == health_json(b) <==> same_health(a, b),
{
    let x = health_json(a)->Object_0;
    let y = health_json(b)->Object_0;
    assert(x.len() == 5 && y.len() == 5);
    if x == y {
        assert(x[0].1 == y[0].1);
        assert(x[1].1 == y[1].1);
        assert(x[2].1 == y[2].1);
        assert(x[3].1 == y[3].1);
        assert(x[4].1 == y[4].1);
    }
    lemma_numbers(a.port as nat, b.port as nat);
    lemma_numbers(a.retries as nat, b.retries as nat);
    if same_health(a, b) {
        assert(x =~= y);
    }
}

/// True when two network settings agree in every field.
pub open spec fn same_network(a: NetworkConfig, b: NetworkConfig) -> bool {
    &&& a.cross_cluster == b.cross_cluster
    &&& same_optional(a.dns_zone, b.dns_zone)
}

proof fn lemma_network(a: NetworkConfig, b: NetworkConfig)
    ensures
        network_json(a) == network_json(b) <==> same_network(a, b),
{
    let x = network_json(a)->Object_0;
    let y = network_json(b)->Object_0;
    assert(x.len() == 2 && y.len() == 2);
    if x == y {
        assert(x[0].1 == y[0].1);
        assert(x[1].1 == y[1].1);
    }
    lemma_optional(a.dns_zone, b.dns_zone);
    if same_network(a, b) {
        assert(x =~= y);
    }
}

/// True when two certificate settings agree in every field.
pub open spec fn same_certificates(a: CertificateConfig, b: CertificateConfig) -> bool {
    a.enabled == b.enabled
}

proof fn lemma_certificates(a: CertificateConfig, b: CertificateConfig)
    ensures
        certificates_json(a) == certificates_json(b) <==> same_certificates(a, b),
{
    let x = certificates_json(a)->Object_0;
    let y = certificates_json(b)->Object_0;
    assert(x.len() == 1 && y.len() == 1);
    if x == y {
        assert(x[0].1 == y[0].1);
    }
    if same_certificates(a, b) {
        assert(x =~= y);
    }
}

/// True when two runtime settings agree in every field.
pub open spec fn same_runtime(a: RuntimeConfig, b: RuntimeConfig) -> bool {
    &&& a.cluster_prefix@ == b.cluster_prefix@
    &&& a.provider == b.provider
}

proof fn lemma_runtime(a: RuntimeConfig, b: RuntimeConfig)
    ensures
        runtime_json(a) == runtime_json(b) <==> same_runtime(a, b),
{
    let x = runtime_json(a)->Object_0;
    let y = runtime_json(b)->Object_0;
    assert(x.len() == 2 && y.len() == 2);
    if x == y {
        assert(x[0].1 == y[0].1);
        assert(x[1].1 == y[1].1);
    }
    if x == y {
        law_provider_words_are_unique(a.provider, b.provider);
    }
    if same_runtime(a, b) {
        assert(x =~= y);
    }
}

/// True when two health checks agree in every field, or both are absent.
pub open spec fn same_optional_health(a: Option<HealthCheck>, b: Option<HealthCheck>) -> bool {
    match (a, b) {
        (Some(x), Some(y)) => same_health(x, y),
        (None, None) => true,
        _ => false,
    }
}

proof fn lemma_optional_health(a: Option<HealthCheck>, b: Option<HealthCheck>)
    ensures
        optional_health_json(a) == optional_health_json(b) <==> same_optional_health(a, b),
{
    if let (Some(x), Some(y)) = (a, b) {
        lemma_health(x, y);
    }
}

/// True when two network settings agree in every field, or both are absent.
pub open spec fn same_optional_network(a: Option<NetworkConfig>, b: Option<NetworkConfig>) -> bool {
    match (a, b) {
        (Some(x), Some(y)) => same_network(x, y),
        (None, None) => true,
        _ => false,
    }
}

proof fn lemma_optional_network(a: Option<NetworkConfig>, b: Option<NetworkConfig>)
    ensures
        optional_network_json(a) == optional_network_json(b) <==> same_optional_network(a, b),
{
    if let (Some(x), Some(y)) = (a, b) {
        lemma_network(x, y);
    }
}

/// True when two certificate settings agree in every field, or both are absent.
pub open spec fn same_optional_certificates(a: Option<CertificateConfig>, b: Option<CertificateConfig>) -> bool {
    match (a, b) {
        (Some(x), Some(y)) => same_certificates(x, y),
        (None, None) => true,
        _ => false,
    }
}

proof fn lemma_optional_certificates(a: Option<CertificateConfig>, b: Option<CertificateConfig>)
    ensures
        optional_certificates_json(a) == optional_certificates_json(b) <==> same_optional_certificates(a, b),
{
    if let (Some(x), Some(y)) = (a, b) {
        lemma_certificates(x, y);
    }
}

/// True when two lists hold the same port mappings in the same order.
pub open spec fn same_ports(a: Seq<PortMapping>, b: Seq<PortMapping>) -> bool {
    &&& a.len() == b.len()
    &&& forall|i: int| 0 <= i < a.len() ==> same_port(#[trigger] a[i], b[i])
}

proof fn lemma_ports(a: Seq<PortMapping>, b: Seq<PortMapping>)
    ensures
        port_list_json(a) == port_list_json(b) <==> same_ports(a, b),
{
    let x = port_list_json(a)->Array_0;
    let y = port_list_json(b)->Array_0;
    assert(x.len() == a.len() && y.len() == b.len());
    if x == y {
        assert forall|i: int| 0 <= i < a.len() implies same_port(#[trigger] a[i], b[i]) by {
            assert(x[i] == y[i]);
            lemma_port(a[i], b[i]);
        }
    }
    if same_ports(a, b) {
        assert forall|i: int| 0 <= i < a.len() implies x[i] == y[i] by {
            lemma_port(a[i], b[i]);
        }
        assert(x =~= y);
    }
}

/// True when two lists hold the same volumes in the same order.
pub open spec fn same_volumes(a: Seq<VolumeMount>, b: Seq<VolumeMount>) -> bool {
    &&& a.len() == b.len()
    &&& forall|i: int| 0 <= i < a.len() ==> same_volume(#[trigger] a[i], b[i])
}

proof fn lemma_volumes(a: Seq<VolumeMount>, b: Seq<VolumeMount>)
    ensures
        volume_list_json(a) == volume_list_json(b) <==> same_volumes(a, b),
{
    let x = volume_list_json(a)->Array_0;
    let y = volume_list_json(b)->Array_0;
    assert(x.len() == a.len() && y.len() == b.len());
    if x == y {
        assert forall|i: int| 0 <= i < a.len() implies same_volume(#[trigger] a[i], b[i]) by {
            assert(x[i] == y[i]);
            lemma_volume(a[i], b[i]);
        }
    }
    if same_volumes(a, b) {
        assert forall|i: int| 0 <= i < a.len() implies x[i] == y[i] by {
            lemma_volume(a[i], b[i]);
        }
        assert(x =~= y);
    }
}

/// True when two clusters agree in every field.
pub open spec fn same_cluster(a: ClusterSpec, b: ClusterSpec) -> bool {
    &&& a.name@ == b.name@
    &&& same_nodes(a.nodes, b.nodes)
    &&& same_ports(a.ports@, b.ports@)
    &&& same_values(a.properties@, b.properties@)
    &&& same_texts(a.stacks@, b.stacks@)
}

proof fn lemma_cluster(a: ClusterSpec, b: ClusterSpec)
    ensures
        cluster_json(a) == cluster_json(b) <==> same_cluster(a, b),
{
    let x = cluster_json(a)->Object_0;
    let y = cluster_json(b)->Object_0;
    assert(x.len() == 5 && y.len() == 5);
    if x == y {
        assert(x[0].1 == y[0].1);
        assert(x[1].1 == y[1].1);
        assert(x[2].1 == y[2].1);
        assert(x[3].1 == y[3].1);
        assert(x[4].1 == y[4].1);
    }
    lemma_nodes(a.nodes, b.nodes);
    lemma_ports(a.ports@, b.ports@);
    lemma_values(a.properties@, b.properties@);
    lemma_texts(a.stacks@, b.stacks@);
    if same_cluster(a, b) {
        assert(x =~= y);
    }
}

/// True when two lists hold the same clusters in the same order.
pub open spec fn same_clusters(a: Seq<ClusterSpec>, b: Seq<ClusterSpec>) -> bool {
    &&& a.len() == b.len()
    &&& forall|i: int| 0 <= i < a.len() ==> same_cluster(#[trigger] a[i], b[i])
}

proof fn lemma_clusters(a: Seq<ClusterSpec>, b: Seq<ClusterSpec>)
    ensures
        cluster_list_json(a) == cluster_list_json(b) <==> same_clusters(a, b),
{
    let x = cluster_list_json(a)->Array_0;
    let y = cluster_list_json(b)->Array_0;
    assert(x.len() == a.len() && y.len() == b.len());
    if x == y {
        assert forall|i: int| 0 <= i < a.len() implies same_cluster(#[trigger] a[i], b[i]) by {
            assert(x[i] == y[i]);
            lemma_cluster(a[i], b[i]);
        }
    }
    if same_clusters(a, b) {
        assert forall|i: int| 0 <= i < a.len() implies x[i] == y[i] by {
            lemma_cluster(a[i], b[i]);
        }
        assert(x =~= y);
    }
}

/// True when two services agree in every field.
pub open spec fn same_service(a: ServiceSpec, b: ServiceSpec) -> bool {
    &&& same_texts(a.args@, b.args@)
    &&& a.auto_start == b.auto_start
    &&& same_texts(a.depends_on@, b.depends_on@)
    &&& same_text_map(a.env@, b.env@)
    &&& same_optional_health(a.health_check, b.health_check)
    &&& a.image@ == b.image@
    &&& a.inherit_host_group == b.inherit_host_group
    &&& a.name@ == b.name@
    &&& a.network == b.network
    &&& same_ports(a.ports@, b.ports@)
    &&& a.restart == b.restart
    &&& same_volumes(a.volumes@, b.volumes@)
}

proof fn lemma_service(a: ServiceSpec, b: ServiceSpec)
    ensures
        service_json(a) == service_json(b) <==> same_service(a, b),
{
    let x = service_json(a)->Object_0;
    let y = service_json(b)->Object_0;
    assert(x.len() == 12 && y.len() == 12);
    if x == y {
        assert(x[0].1 == y[0].1);
        assert(x[1].1 == y[1].1);
        assert(x[2].1 == y[2].1);
        assert(x[3].1 == y[3].1);
        assert(x[4].1 == y[4].1);
        assert(x[5].1 == y[5].1);
        assert(x[6].1 == y[6].1);
        assert(x[7].1 == y[7].1);
        assert(x[8].1 == y[8].1);
        assert(x[9].1 == y[9].1);
        assert(x[10].1 == y[10].1);
        assert(x[11].1 == y[11].1);
    }
    lemma_texts(a.args@, b.args@);
    lemma_texts(a.depends_on@, b.depends_on@);
    lemma_text_map(a.env@, b.env@);
    lemma_optional_health(a.health_check, b.health_check);
    if x == y {
        law_network_mode_words_are_unique(a.network, b.network);
    }
    lemma_ports(a.ports@, b.ports@);
    if x == y {
        law_restart_words_are_unique(a.restart, b.restart);
    }
    lemma_volumes(a.volumes@, b.volumes@);
    if same_service(a, b) {
        assert(x =~= y);
    }
}

/// True when two lists hold the same services in the same order.
pub open spec fn same_services(a: Seq<ServiceSpec>, b: Seq<ServiceSpec>) -> bool {
    &&& a.len() == b.len()
    &&& forall|i: int| 0 <= i < a.len() ==> same_service(#[trigger] a[i], b[i])
}

proof fn lemma_services(a: Seq<ServiceSpec>, b: Seq<ServiceSpec>)
    ensures
        service_list_json(a) == service_list_json(b) <==> same_services(a, b),
{
    let x = service_list_json(a)->Array_0;
    let y = service_list_json(b)->Array_0;
    assert(x.len() == a.len() && y.len() == b.len());
    if x == y {
        assert forall|i: int| 0 <= i < a.len() implies same_service(#[trigger] a[i], b[i]) by {
            assert(x[i] == y[i]);
            lemma_service(a[i], b[i]);
        }
    }
    if same_services(a, b) {
        assert forall|i: int| 0 <= i < a.len() implies x[i] == y[i] by {
            lemma_service(a[i], b[i]);
        }
        assert(x =~= y);
    }
}

// ---------------------------------------------------------------
// Stacks
// ---------------------------------------------------------------

/// True when two steps are of one type and agree in every field.
pub open spec fn same_step(a: StepSpec, b: StepSpec) -> bool
    decreases a,
{
    match a {
        StepSpec::Url { url, sha256 } => {
            &&& b is Url
            &&& url@ == b->Url_url@
            &&& sha256@ == b->Url_sha256@
        },
        StepSpec::Manifest { path } => {
            &&& b is Manifest
            &&& path@ == b->Manifest_path@
        },
        StepSpec::Kustomize { path } => {
            &&& b is Kustomize
            &&& path@ == b->Kustomize_path@
        },
        StepSpec::Helm { release, chart, version, namespace, values } => {
            &&& b is Helm
            &&& release@ == b->Helm_release@
            &&& chart@ == b->Helm_chart@
            &&& version@ == b->Helm_version@
            &&& same_optional(namespace, b->Helm_namespace)
            &&& same_values(values@, b->Helm_values@)
        },
        StepSpec::Deployment { name, image, replicas, namespace } => {
            &&& b is Deployment
            &&& name@ == b->Deployment_name@
            &&& image@ == b->Deployment_image@
            &&& replicas == b->Deployment_replicas
            &&& same_optional(namespace, b->Deployment_namespace)
        },
        StepSpec::Service { name, port, namespace } => {
            &&& b is Service
            &&& name@ == b->Service_name@
            &&& port == b->Service_port
            &&& same_optional(namespace, b->Service_namespace)
        },
        StepSpec::Wait { resource, condition, timeout, namespace } => {
            &&& b is Wait
            &&& resource@ == b->Wait_resource@
            &&& condition@ == b->Wait_condition@
            &&& timeout@ == b->Wait_timeout@
            &&& same_optional(namespace, b->Wait_namespace)
        },
        StepSpec::Exec { command, env } => {
            &&& b is Exec
            &&& same_texts(command@, b->Exec_command@)
            &&& same_text_map(env@, b->Exec_env@)
        },
        StepSpec::ForEach { property, steps } => {
            &&& b is ForEach
            &&& property@ == b->ForEach_property@
            &&& steps.len() == (b->ForEach_steps).len()
            &&& forall|i: int|
                0 <= i < steps.len() ==> same_step(#[trigger] steps[i], b->ForEach_steps[i])
        },
        StepSpec::MetallbAutoPool { name } => {
            &&& b is MetallbAutoPool
            &&& name@ == b->MetallbAutoPool_name@
        },
        StepSpec::CoreDnsForward { zone, upstreams } => {
            &&& b is CoreDnsForward
            &&& zone@ == b->CoreDnsForward_zone@
            &&& same_texts(upstreams@, b->CoreDnsForward_upstreams@)
        },
        StepSpec::Capture { resource, namespace, jsonpath, key, timeout, interval } => {
            &&& b is Capture
            &&& resource@ == b->Capture_resource@
            &&& same_optional(namespace, b->Capture_namespace)
            &&& jsonpath@ == b->Capture_jsonpath@
            &&& key@ == b->Capture_key@
            &&& timeout@ == b->Capture_timeout@
            &&& interval@ == b->Capture_interval@
        },
        StepSpec::TemplateManifest { path } => {
            &&& b is TemplateManifest
            &&& path@ == b->TemplateManifest_path@
        },
        StepSpec::TemplateFile { source, target } => {
            &&& b is TemplateFile
            &&& source@ == b->TemplateFile_source@
            &&& target@ == b->TemplateFile_target@
        },
    }
}

/// Different types of steps have different words.
pub proof fn law_step_type_words_are_unique(a: StepSpec, b: StepSpec)
    requires
        step_type_word(a) == step_type_word(b),
    ensures
        a is Url <==> b is Url,
        a is Manifest <==> b is Manifest,
        a is Kustomize <==> b is Kustomize,
        a is Helm <==> b is Helm,
        a is Deployment <==> b is Deployment,
        a is Service <==> b is Service,
        a is Wait <==> b is Wait,
        a is Exec <==> b is Exec,
        a is ForEach <==> b is ForEach,
        a is MetallbAutoPool <==> b is MetallbAutoPool,
        a is CoreDnsForward <==> b is CoreDnsForward,
        a is Capture <==> b is Capture,
        a is TemplateManifest <==> b is TemplateManifest,
        a is TemplateFile <==> b is TemplateFile,
{
    reveal_strlit("url");
    assert("url"@.len() == 3 && "url"@[0] == 'u');
    reveal_strlit("manifest");
    assert("manifest"@.len() == 8 && "manifest"@[0] == 'm');
    reveal_strlit("kustomize");
    assert("kustomize"@.len() == 9 && "kustomize"@[0] == 'k');
    reveal_strlit("helm");
    assert("helm"@.len() == 4 && "helm"@[0] == 'h');
    reveal_strlit("deployment");
    assert("deployment"@.len() == 10 && "deployment"@[0] == 'd');
    reveal_strlit("service");
    assert("service"@.len() == 7 && "service"@[0] == 's');
    reveal_strlit("wait");
    assert("wait"@.len() == 4 && "wait"@[0] == 'w');
    reveal_strlit("exec");
    assert("exec"@.len() == 4 && "exec"@[0] == 'e');
    reveal_strlit("for-each");
    assert("for-each"@.len() == 8 && "for-each"@[0] == 'f');
    reveal_strlit("metallb-auto-pool");
    assert("metallb-auto-pool"@.len() == 17 && "metallb-auto-pool"@[0] == 'm');
    reveal_strlit("core-dns-forward");
    assert("core-dns-forward"@.len() == 16 && "core-dns-forward"@[0] == 'c');
    reveal_strlit("capture");
    assert("capture"@.len() == 7 && "capture"@[0] == 'c');
    reveal_strlit("template-manifest");
    assert("template-manifest"@.len() == 17 && "template-manifest"@[0] == 't');
    reveal_strlit("template-file");
    assert("template-file"@.len() == 13 && "template-file"@[0] == 't');
    assert(step_type_word(a).len() == step_type_word(b).len());
    assert(step_type_word(a)[0] == step_type_word(b)[0]);
}

/// The first `n` steps of a list as values, one by one.
proof fn lemma_steps_json(steps: Vec<StepSpec>, n: int)
    requires
        0 <= n <= steps@.len(),
    ensures
        steps_json(steps, n).len() == n,
        forall|i: int| 0 <= i < n ==> steps_json(steps, n)[i] == step_json(#[trigger] steps@[i]),
    decreases n,
{
    if n > 0 {
        lemma_steps_json(steps, n - 1);
    }
}

/// The JSON form of a step tells its type and every field, and nothing else:
/// two steps have the same form exactly when they agree.
pub proof fn law_step_form_determines_the_step(a: StepSpec, b: StepSpec)
    ensures
        step_json(a) == step_json(b) <==> same_step(a, b),
    decreases a,
{
    let x = step_json(a)->Object_0;
    let y = step_json(b)->Object_0;
    assert(x[0] == ("type"@, JsonView::String(step_type_word(a))));
    assert(y[0] == ("type"@, JsonView::String(step_type_word(b))));
    if x == y {
        assert(step_type_word(a) == step_type_word(b));
        law_step_type_words_are_unique(a, b);
    }
    match a {
        StepSpec::Url { url, sha256 } => {
            if b is Url {
                assert(x.len() == 3 && y.len() == 3);
                if x == y {
                    assert(x[1].1 == y[1].1);
                    assert(x[2].1 == y[2].1);
                }
                if same_step(a, b) {
                    assert(x =~= y);
                }
            }
        },
        StepSpec::Manifest { path } => {
            if b is Manifest {
                assert(x.len() == 2 && y.len() == 2);
                if x == y {
                    assert(x[1].1 == y[1].1);
                }
                if same_step(a, b) {
                    assert(x =~= y);
                }
            }
        },
        StepSpec::Kustomize { path } => {
            if b is Kustomize {
                assert(x.len() == 2 && y.len() == 2);
                if x == y {
                    assert(x[1].1 == y[1].1);
                }
                if same_step(a, b) {
                    assert(x =~= y);
                }
            }
        },
        StepSpec::Helm { release, chart, version, namespace, values } => {
            if b is Helm {
                assert(x.len() == 6 && y.len() == 6);
                if x == y {
                    assert(x[1].1 == y[1].1);
                    assert(x[2].1 == y[2].1);
                    assert(x[3].1 == y[3].1);
                    assert(x[4].1 == y[4].1);
                    assert(x[5].1 == y[5].1);
                }
                lemma_optional(namespace, b->Helm_namespace);
                lemma_values(values@, b->Helm_values@);
                if same_step(a, b) {
                    assert(x =~= y);
                }
            }
        },
        StepSpec::Deployment { name, image, replicas, namespace } => {
            if b is Deployment {
                assert(x.len() == 5 && y.len() == 5);
                if x == y {
                    assert(x[1].1 == y[1].1);
                    assert(x[2].1 == y[2].1);
                    assert(x[3].1 == y[3].1);
                    assert(x[4].1 == y[4].1);
                }
                lemma_numbers(replicas as nat, b->Deployment_replicas as nat);
                lemma_optional(namespace, b->Deployment_namespace);
                if same_step(a, b) {
                    assert(x =~= y);
                }
            }
        },
        StepSpec::Service { name, port, namespace } => {
            if b is Service {
                assert(x.len() == 4 && y.len() == 4);
                if x == y {
                    assert(x[1].1 == y[1].1);
                    assert(x[2].1 == y[2].1);
                    assert(x[3].1 == y[3].1);
                }
                lemma_numbers(port as nat, b->Service_port as nat);
                lemma_optional(namespace, b->Service_namespace);
                if same_step(a, b) {
                    assert(x =~= y);
                }
            }
        },
        StepSpec::Wait { resource, condition, timeout, namespace } => {
            if b is Wait {
                assert(x.len() == 5 && y.len() == 5);
                if x == y {
                    assert(x[1].1 == y[1].1);
                    assert(x[2].1 == y[2].1);
                    assert(x[3].1 == y[3].1);
                    assert(x[4].1 == y[4].1);
                }
                lemma_optional(namespace, b->Wait_namespace);
                if same_step(a, b) {
                    assert(x =~= y);
                }
            }
        },
        StepSpec::Exec { command, env } => {
            if b is Exec {
                assert(x.len() == 3 && y.len() == 3);
                if x == y {
                    assert(x[1].1 == y[1].1);
                    assert(x[2].1 == y[2].1);
                }
                lemma_texts(command@, b->Exec_command@);
                lemma_text_map(env@, b->Exec_env@);
                if same_step(a, b) {
                    assert(x =~= y);
                }
            }
        },
        StepSpec::ForEach { property, steps } => {
            if b is ForEach {
                assert(x.len() == 3 && y.len() == 3);
                if x == y {
                    assert(x[1].1 == y[1].1);
                    assert(x[2].1 == y[2].1);
                }
                let others = b->ForEach_steps;
                let n = steps@.len() as int;
                let m = others@.len() as int;
                lemma_steps_json(steps, n);
                lemma_steps_json(others, m);
                assert forall|i: int| 0 <= i < n && i < m implies (step_json(#[trigger] steps@[i])
                    == step_json(others@[i]) <==> same_step(steps@[i], others@[i])) by {
                    law_step_form_determines_the_step(steps@[i], others@[i]);
                }
                if x == y {
                    assert(steps_json(steps, n) == steps_json(others, m));
                    assert forall|i: int| 0 <= i < n implies same_step(
                        #[trigger] steps[i],
                        others[i],
                    ) by {
                        assert(steps_json(steps, n)[i] == steps_json(others, m)[i]);
                        assert(step_json(steps@[i]) == step_json(others@[i]));
                    }
                }
                if same_step(a, b) {
                    assert forall|i: int| 0 <= i < n implies steps_json(steps, n)[i] == steps_json(
                        others,
                        m,
                    )[i] by {
                        assert(same_step(steps[i], others[i]));
                        assert(step_json(steps@[i]) == step_json(others@[i]));
                    }
                    assert(steps_json(steps, n) =~= steps_json(others, m));
                }
                if same_step(a, b) {
                    assert(x =~= y);
                }
            }
        },
        StepSpec::MetallbAutoPool { name } => {
            if b is MetallbAutoPool {
                assert(x.len() == 2 && y.len() == 2);
                if x == y {
                    assert(x[1].1 == y[1].1);
                }
                if same_step(a, b) {
                    assert(x =~= y);
                }
            }
        },
        StepSpec::CoreDnsForward { zone, upstreams } => {
            if b is CoreDnsForward {
                assert(x.len() == 3 && y.len() == 3);
                if x == y {
                    assert(x[1].1 == y[1].1);
                    assert(x[2].1 == y[2].1);
                }
                lemma_texts(upstreams@, b->CoreDnsForward_upstreams@);
                if same_step(a, b) {
                    assert(x =~= y);
                }
            }
        },
        StepSpec::Capture { resource, namespace, jsonpath, key, timeout, interval } => {
            if b is Capture {
                assert(x.len() == 7 && y.len() == 7);
                if x == y {
                    assert(x[1].1 == y[1].1);
                    assert(x[2].1 == y[2].1);
                    assert(x[3].1 == y[3].1);
                    assert(x[4].1 == y[4].1);
                    assert(x[5].1 == y[5].1);
                    assert(x[6].1 == y[6].1);
                }
                lemma_optional(namespace, b->Capture_namespace);
                if same_step(a, b) {
                    assert(x =~= y);
                }
            }
        },
        StepSpec::TemplateManifest { path } => {
            if b is TemplateManifest {
                assert(x.len() == 2 && y.len() == 2);
                if x == y {
                    assert(x[1].1 == y[1].1);
                }
                if same_step(a, b) {
                    assert(x =~= y);
                }
            }
        },
        StepSpec::TemplateFile { source, target } => {
            if b is TemplateFile {
                assert(x.len() == 3 && y.len() == 3);
                if x == y {
                    assert(x[1].1 == y[1].1);
                    assert(x[2].1 == y[2].1);
                }
                if same_step(a, b) {
                    assert(x =~= y);
                }
            }
        },
    }
}

/// True when two stacks have the same description, and the same steps in the
/// same order.
pub open spec fn same_stack(a: StackSpec, b: StackSpec) -> bool {
    &&& same_optional(a.description, b.description)
    &&& a.steps@.len() == b.steps@.len()
    &&& forall|i: int| 0 <= i < a.steps@.len() ==> same_step(#[trigger] a.steps@[i], b.steps@[i])
}

/// The JSON form of a stack tells the description and every field of every step,
/// and nothing else: two stacks have the same form exactly when they agree.
pub proof fn law_stack_form_determines_the_stack(a: StackSpec, b: StackSpec)
    ensures
        stack_json(a) == stack_json(b) <==> same_stack(a, b),
{
    let x = stack_json(a)->Object_0;
    let y = stack_json(b)->Object_0;
    assert(x.len() == 2 && y.len() == 2);
    lemma_optional(a.description, b.description);
    let n = a.steps@.len() as int;
    let m = b.steps@.len() as int;
    lemma_steps_json(a.steps, n);
    lemma_steps_json(b.steps, m);
    assert forall|i: int| 0 <= i < n && i < m implies (step_json(#[trigger] a.steps@[i])
        == step_json(b.steps@[i]) <==> same_step(a.steps@[i], b.steps@[i])) by {
        law_step_form_determines_the_step(a.steps@[i], b.steps@[i]);
    }
    if x == y {
        assert(x[0].1 == y[0].1);
        assert(x[1].1 == y[1].1);
        assert(steps_json(a.steps, n) == steps_json(b.steps, m));
        assert forall|i: int| 0 <= i < n implies same_step(#[trigger] a.steps@[i], b.steps@[i]) by {
            assert(steps_json(a.steps, n)[i] == steps_json(b.steps, m)[i]);
            assert(step_json(a.steps@[i]) == step_json(b.steps@[i]));
        }
    }
    if same_stack(a, b) {
        assert forall|i: int| 0 <= i < n implies steps_json(a.steps, n)[i] == steps_json(
            b.steps,
            m,
        )[i] by {
            assert(step_json(a.steps@[i]) == step_json(b.steps@[i]));
        }
        assert(steps_json(a.steps, n) =~= steps_json(b.steps, m));
        assert(x =~= y);
    }
}

/// True when two maps hold the same stacks under the same names.
pub open spec fn same_stacks(
    a: Seq<(Seq<char>, StackSpec)>,
    b: Seq<(Seq<char>, StackSpec)>,
) -> bool {
    &&& a.len() == b.len()
    &&& forall|i: int| 0 <= i < a.len() ==> (#[trigger] a[i]).0 == b[i].0 && same_stack(a[i].1, b[i].1)
}

proof fn lemma_stacks(a: Seq<(Seq<char>, StackSpec)>, b: Seq<(Seq<char>, StackSpec)>)
    ensures
        stacks_json(a) == stacks_json(b) <==> same_stacks(a, b),
{
    let x = stacks_json(a);
    let y = stacks_json(b);
    assert(x.len() == a.len() && y.len() == b.len());
    if x == y {
        assert forall|i: int| 0 <= i < a.len() implies (#[trigger] a[i]).0 == b[i].0 && same_stack(
            a[i].1,
            b[i].1,
        ) by {
            assert(x[i] == y[i]);
            law_stack_form_determines_the_stack(a[i].1, b[i].1);
        }
    }
    if same_stacks(a, b) {
        assert forall|i: int| 0 <= i < a.len() implies x[i] == y[i] by {
            assert(a[i].0 == b[i].0);
            law_stack_form_determines_the_stack(a[i].1, b[i].1);
        }
        assert(x =~= y);
    }
}

// ---------------------------------------------------------------
// Configurations
// ---------------------------------------------------------------

/// True when two configurations agree in every field.
pub open spec fn same_config(a: ForgeConfig, b: ForgeConfig) -> bool {
    &&& a.api_version@ == b.api_version@
    &&& a.kind@ == b.kind@
    &&& a.metadata.name@ == b.metadata.name@
    &&& same_optional_certificates(a.spec.certificates, b.spec.certificates)
    &&& same_clusters(a.spec.clusters@, b.spec.clusters@)
    &&& same_optional_network(a.spec.network, b.spec.network)
    &&& same_runtime(a.spec.runtime, b.spec.runtime)
    &&& same_services(a.spec.services@, b.spec.services@)
    &&& same_stacks(a.spec.stacks@, b.spec.stacks@)
}

/// The JSON form of a configuration tells every field of it, and nothing else:
/// two configurations have the same form exactly when they agree.
pub proof fn law_config_form_determines_the_config(a: ForgeConfig, b: ForgeConfig)
    ensures
        config_json(a, a.spec.stacks@) == config_json(b, b.spec.stacks@) <==> same_config(a, b),
{
    let x = config_json(a, a.spec.stacks@)->Object_0;
    let y = config_json(b, b.spec.stacks@)->Object_0;
    let p = spec_json(a.spec, a.spec.stacks@)->Object_0;
    let q = spec_json(b.spec, b.spec.stacks@)->Object_0;
    let m = x[2].1->Object_0;
    let k = y[2].1->Object_0;
    assert(x.len() == 4 && y.len() == 4);
    assert(p.len() == 6 && q.len() == 6);
    lemma_optional_certificates(a.spec.certificates, b.spec.certificates);
    lemma_clusters(a.spec.clusters@, b.spec.clusters@);
    lemma_optional_network(a.spec.network, b.spec.network);
    lemma_runtime(a.spec.runtime, b.spec.runtime);
    lemma_services(a.spec.services@, b.spec.services@);
    lemma_stacks(a.spec.stacks@, b.spec.stacks@);
    if x == y {
        assert(x[0].1 == y[0].1);
        assert(x[1].1 == y[1].1);
        assert(x[2].1 == y[2].1);
        assert(x[3].1 == y[3].1);
        assert(m[0].1 == k[0].1);
        assert(p == q);
        assert(p[0].1 == q[0].1);
        assert(p[1].1 == q[1].1);
        assert(p[2].1 == q[2].1);
        assert(p[3].1 == q[3].1);
        assert(p[4].1 == q[4].1);
        assert(p[5].1 == q[5].1);
    }
    if same_config(a, b) {
        assert(p =~= q);
        assert(m =~= k);
        assert(x =~= y);
    }
}

// ---------------------------------------------------------------
// Texts
// ---------------------------------------------------------------

/// True when the numbers in the values of a map are written as numbers.
pub open spec fn values_are_plain(values: Seq<(Seq<char>, Json)>) -> bool {
    forall|i: int| 0 <= i < values.len() ==> is_plain((#[trigger] values[i]).1@)
}

/// True when the numbers in the chart values of a step are written as numbers.
pub open spec fn step_is_plain(step: StepSpec) -> bool
    decreases step,
{
    match step {
        StepSpec::Helm { values, .. } => values_are_plain(values@),
        StepSpec::ForEach { steps, .. } => forall|i: int|
            0 <= i < steps.len() ==> step_is_plain(#[trigger] steps[i]),
        _ => true,
    }
}

/// True when the numbers in the chart values of a stack are written as numbers.
pub open spec fn stack_is_plain(stack: StackSpec) -> bool {
    forall|i: int| 0 <= i < stack.steps@.len() ==> step_is_plain(#[trigger] stack.steps@[i])
}

/// True when the numbers in the free values of a configuration are written as
/// numbers.
pub open spec fn config_is_plain(config: ForgeConfig) -> bool {
    &&& forall|i: int|
        0 <= i < config.spec.clusters@.len() ==> values_are_plain(
            (#[trigger] config.spec.clusters@[i]).properties@,
        )
    &&& forall|i: int|
        0 <= i < config.spec.stacks@.len() ==> stack_is_plain((#[trigger] config.spec.stacks@[i]).1)
}

/// True when the values of all members are plain.
spec fn members_plain(fields: Seq<(Seq<char>, JsonView)>) -> bool {
    forall|i: int| 0 <= i < fields.len() ==> is_plain((#[trigger] fields[i]).1)
}

proof fn lemma_members_plain(fields: Seq<(Seq<char>, JsonView)>)
    requires
        members_plain(fields),
    ensures
        is_plain(JsonView::Object(fields)),
{
    let value = JsonView::Object(fields);
    match value {
        JsonView::Object(members) => {
            assert(members == fields);
        },
        _ => {},
    }
}

proof fn lemma_items_plain(items: Seq<JsonView>)
    requires
        forall|i: int| 0 <= i < items.len() ==> is_plain(#[trigger] items[i]),
    ensures
        is_plain(JsonView::Array(items)),
{
    let value = JsonView::Array(items);
    match value {
        JsonView::Array(list) => {
            assert(list == items);
        },
        _ => {},
    }
}

proof fn lemma_number_plain(n: nat)
    ensures
        is_plain(number_json(n)),
{
    lemma_decimal_is_number(n);
}

proof fn lemma_texts_plain(items: Seq<String>)
    ensures
        is_plain(texts_json(items)),
{
    lemma_items_plain(texts_json(items)->Array_0);
}

proof fn lemma_text_map_plain(entries: Seq<(Seq<char>, String)>)
    ensures
        is_plain(JsonView::Object(text_map_views(entries))),
{
    lemma_members_plain(text_map_views(entries));
}

proof fn lemma_values_plain(entries: Seq<(Seq<char>, Json)>)
    requires
        values_are_plain(entries),
    ensures
        is_plain(JsonView::Object(map_views(entries))),
{
    lemma_members_plain(map_views(entries));
}


proof fn lemma_port_plain(value: PortMapping)
    ensures
        is_plain(port_json(value)),
{
    let fields = port_json(value)->Object_0;
    assert(fields.len() == 4);
    lemma_number_plain(value.container as nat);
    lemma_number_plain(value.host as nat);
    assert(is_plain(fields[0].1));
    assert(is_plain(fields[1].1));
    assert(is_plain(fields[2].1));
    assert(is_plain(fields[3].1));
    assert(members_plain(fields));
    lemma_members_plain(fields);
}

proof fn lemma_nodes_plain(value: NodeConfig)
    ensures
        is_plain(nodes_json(value)),
{
    let fields = nodes_json(value)->Object_0;
    assert(fields.len() == 2);
    lemma_number_plain(value.control_planes as nat);
    lemma_number_plain(value.workers as nat);
    assert(is_plain(fields[0].1));
    assert(is_plain(fields[1].1));
    assert(members_plain(fields));
    lemma_members_plain(fields);
}

proof fn lemma_volume_plain(value: VolumeMount)
    ensures
        is_plain(volume_json(value)),
{
    let fields = volume_json(value)->Object_0;
    assert(fields.len() == 3);
    assert(is_plain(fields[0].1));
    assert(is_plain(fields[1].1));
    assert(is_plain(fields[2].1));
    assert(members_plain(fields));
    lemma_members_plain(fields);
}

proof fn lemma_health_plain(value: HealthCheck)
    ensures
        is_plain(health_json(value)),
{
    let fields = health_json(value)->Object_0;
    assert(fields.len() == 5);
    lemma_number_plain(value.port as nat);
    lemma_number_plain(value.retries as nat);
    assert(is_plain(fields[0].1));
    assert(is_plain(fields[1].1));
    assert(is_plain(fields[2].1));
    assert(is_plain(fields[3].1));
    assert(is_plain(fields[4].1));
    assert(members_plain(fields));
    lemma_members_plain(fields);
}

proof fn lemma_network_plain(value: NetworkConfig)
    ensures
        is_plain(network_json(value)),
{
    let fields = network_json(value)->Object_0;
    assert(fields.len() == 2);
    assert(is_plain(fields[0].1));
    assert(is_plain(fields[1].1));
    assert(members_plain(fields));
    lemma_members_plain(fields);
}

proof fn lemma_certificates_plain(value: CertificateConfig)
    ensures
        is_plain(certificates_json(value)),
{
    let fields = certificates_json(value)->Object_0;
    assert(fields.len() == 1);
    assert(is_plain(fields[0].1));
    assert(members_plain(fields));
    lemma_members_plain(fields);
}

proof fn lemma_runtime_plain(value: RuntimeConfig)
    ensures
        is_plain(runtime_json(value)),
{
    let fields = runtime_json(value)->Object_0;
    assert(fields.len() == 2);
    assert(is_plain(fields[0].1));
    assert(is_plain(fields[1].1));
    assert(members_plain(fields));
    lemma_members_plain(fields);
}

proof fn lemma_ports_plain(items: Seq<PortMapping>)
    ensures
        is_plain(port_list_json(items)),
{
    let values = port_list_json(items)->Array_0;
    assert forall|i: int| 0 <= i < values.len() implies is_plain(#[trigger] values[i]) by {
        lemma_port_plain(items[i]);
    }
    lemma_items_plain(values);
}

proof fn lemma_volumes_plain(items: Seq<VolumeMount>)
    ensures
        is_plain(volume_list_json(items)),
{
    let values = volume_list_json(items)->Array_0;
    assert forall|i: int| 0 <= i < values.len() implies is_plain(#[trigger] values[i]) by {
        lemma_volume_plain(items[i]);
    }
    lemma_items_plain(values);
}

proof fn lemma_cluster_plain(value: ClusterSpec)
    requires
        values_are_plain(value.properties@),
    ensures
        is_plain(cluster_json(value)),
{
    let fields = cluster_json(value)->Object_0;
    assert(fields.len() == 5);
    lemma_nodes_plain(value.nodes);
    lemma_ports_plain(value.ports@);
    lemma_values_plain(value.properties@);
    lemma_texts_plain(value.stacks@);
    assert(is_plain(fields[0].1));
    assert(is_plain(fields[1].1));
    assert(is_plain(fields[2].1));
    assert(is_plain(fields[3].1));
    assert(is_plain(fields[4].1));
    assert(members_plain(fields));
    lemma_members_plain(fields);
}

proof fn lemma_clusters_plain(items: Seq<ClusterSpec>)
    requires
        forall|i: int|
            0 <= i < items.len() ==> values_are_plain((#[trigger] items[i]).properties@),
    ensures
        is_plain(cluster_list_json(items)),
{
    let values = cluster_list_json(items)->Array_0;
    assert forall|i: int| 0 <= i < values.len() implies is_plain(#[trigger] values[i]) by {
        lemma_cluster_plain(items[i]);
    }
    lemma_items_plain(values);
}

proof fn lemma_service_plain(value: ServiceSpec)
    ensures
        is_plain(service_json(value)),
{
    let fields = service_json(value)->Object_0;
    assert(fields.len() == 12);
    lemma_texts_plain(value.args@);
    lemma_texts_plain(value.depends_on@);
    lemma_text_map_plain(value.env@);
    if let Some(check) = value.health_check {
        lemma_health_plain(check);
    }
    lemma_ports_plain(value.ports@);
    lemma_volumes_plain(value.volumes@);
    assert(is_plain(fields[0].1));
    assert(is_plain(fields[1].1));
    assert(is_plain(fields[2].1));
    assert(is_plain(fields[3].1));
    assert(is_plain(fields[4].1));
    assert(is_plain(fields[5].1));
    assert(is_plain(fields[6].1));
    assert(is_plain(fields[7].1));
    assert(is_plain(fields[8].1));
    assert(is_plain(fields[9].1));
    assert(is_plain(fields[10].1));
    assert(is_plain(fields[11].1));
    assert(members_plain(fields));
    lemma_members_plain(fields);
}

proof fn lemma_services_plain(items: Seq<ServiceSpec>)
    ensures
        is_plain(service_list_json(items)),
{
    let values = service_list_json(items)->Array_0;
    assert forall|i: int| 0 <= i < values.len() implies is_plain(#[trigger] values[i]) by {
        lemma_service_plain(items[i]);
    }
    lemma_items_plain(values);
}

/// The steps that a plain repetition repeats are plain.
proof fn lemma_repeated_plain(step: StepSpec)
    requires
        step_is_plain(step),
    ensures
        step matches StepSpec::ForEach { steps, .. } ==> forall|i: int|
            0 <= i < steps@.len() ==> step_is_plain(#[trigger] steps@[i]),
{
    match step {
        StepSpec::ForEach { steps, .. } => {
            assert forall|i: int| 0 <= i < steps@.len() implies step_is_plain(
                #[trigger] steps@[i],
            ) by {
                assert(step_is_plain(steps[i]));
            }
        },
        _ => {},
    }
}

proof fn lemma_step_plain(step: StepSpec)
    requires
        step_is_plain(step),
    ensures
        is_plain(step_json(step)),
    decreases step,
{
    let fields = step_json(step)->Object_0;
    assert(is_plain(fields[0].1));
    match step {
        StepSpec::Url { .. } => {
            assert(fields.len() == 3);
            assert(is_plain(fields[1].1));
            assert(is_plain(fields[2].1));
        },
        StepSpec::Manifest { .. } => {
            assert(fields.len() == 2);
            assert(is_plain(fields[1].1));
        },
        StepSpec::Kustomize { .. } => {
            assert(fields.len() == 2);
            assert(is_plain(fields[1].1));
        },
        StepSpec::Helm { values, .. } => {
            assert(fields.len() == 6);
            lemma_values_plain(values@);
            assert(is_plain(fields[1].1));
            assert(is_plain(fields[2].1));
            assert(is_plain(fields[3].1));
            assert(is_plain(fields[4].1));
            assert(is_plain(fields[5].1));
        },
        StepSpec::Deployment { replicas, .. } => {
            assert(fields.len() == 5);
            lemma_number_plain(replicas as nat);
            assert(is_plain(fields[1].1));
            assert(is_plain(fields[2].1));
            assert(is_plain(fields[3].1));
            assert(is_plain(fields[4].1));
        },
        StepSpec::Service { port, .. } => {
            assert(fields.len() == 4);
            lemma_number_plain(port as nat);
            assert(is_plain(fields[1].1));
            assert(is_plain(fields[2].1));
            assert(is_plain(fields[3].1));
        },
        StepSpec::Wait { .. } => {
            assert(fields.len() == 5);
            assert(is_plain(fields[1].1));
            assert(is_plain(fields[2].1));
            assert(is_plain(fields[3].1));
            assert(is_plain(fields[4].1));
        },
        StepSpec::Exec { command, env } => {
            assert(fields.len() == 3);
            lemma_texts_plain(command@);
            lemma_text_map_plain(env@);
            assert(is_plain(fields[1].1));
            assert(is_plain(fields[2].1));
        },
        StepSpec::ForEach { steps, .. } => {
            assert(fields.len() == 3);
            lemma_repeated_plain(step);
            let n = steps@.len() as int;
            lemma_steps_json(steps, n);
            assert forall|i: int| 0 <= i < n implies is_plain(
                #[trigger] steps_json(steps, n)[i],
            ) by {
                assert(step_is_plain(steps@[i]));
                lemma_step_plain(steps@[i]);
                assert(steps_json(steps, n)[i] == step_json(steps@[i]));
            }
            lemma_items_plain(steps_json(steps, n));
            assert(is_plain(fields[1].1));
            assert(is_plain(fields[2].1));
        },
        StepSpec::MetallbAutoPool { .. } => {
            assert(fields.len() == 2);
            assert(is_plain(fields[1].1));
        },
        StepSpec::CoreDnsForward { upstreams, .. } => {
            assert(fields.len() == 3);
            lemma_texts_plain(upstreams@);
            assert(is_plain(fields[1].1));
            assert(is_plain(fields[2].1));
        },
        StepSpec::Capture { .. } => {
            assert(fields.len() == 7);
            assert(is_plain(fields[1].1));
            assert(is_plain(fields[2].1));
            assert(is_plain(fields[3].1));
            assert(is_plain(fields[4].1));
            assert(is_plain(fields[5].1));
            assert(is_plain(fields[6].1));
        },
        StepSpec::TemplateManifest { .. } => {
            assert(fields.len() == 2);
            assert(is_plain(fields[1].1));
        },
        StepSpec::TemplateFile { .. } => {
            assert(fields.len() == 3);
            assert(is_plain(fields[1].1));
            assert(is_plain(fields[2].1));
        },
    }
    assert(members_plain(fields));
    lemma_members_plain(fields);
}

proof fn lemma_stack_plain(stack: StackSpec)
    requires
        stack_is_plain(stack),
    ensures
        is_plain(stack_json(stack)),
{
    let fields = stack_json(stack)->Object_0;
    let n = stack.steps@.len() as int;
    lemma_steps_json(stack.steps, n);
    assert forall|i: int| 0 <= i < n implies is_plain(#[trigger] steps_json(stack.steps, n)[i]) by {
        assert(step_is_plain(stack.steps@[i]));
        lemma_step_plain(stack.steps@[i]);
        assert(steps_json(stack.steps, n)[i] == step_json(stack.steps@[i]));
    }
    lemma_items_plain(steps_json(stack.steps, n));
    assert(fields.len() == 2);
    assert(is_plain(fields[0].1));
    assert(is_plain(fields[1].1));
    assert(members_plain(fields));
    lemma_members_plain(fields);
}

/// Two stacks that differ in any field of any step, or in the description, have
/// different texts; stacks that agree have the same.
pub proof fn law_stack_text_determines_the_stack(a: StackSpec, b: StackSpec)
    requires
        stack_is_plain(a),
        stack_is_plain(b),
    ensures
        compact(stack_json(a)) == compact(stack_json(b)) <==> same_stack(a, b),
{
    lemma_stack_plain(a);
    lemma_stack_plain(b);
    law_stack_form_determines_the_stack(a, b);
    if compact(stack_json(a)) == compact(stack_json(b)) {
        law_text_determines_the_value(stack_json(a), stack_json(b));
    }
}

proof fn lemma_config_plain(config: ForgeConfig)
    requires
        config_is_plain(config),
    ensures
        is_plain(config_json(config, config.spec.stacks@)),
{
    let stacks = stacks_json(config.spec.stacks@);
    assert forall|i: int| 0 <= i < stacks.len() implies is_plain((#[trigger] stacks[i]).1) by {
        assert(stack_is_plain(config.spec.stacks@[i].1));
        lemma_stack_plain(config.spec.stacks@[i].1);
    }
    lemma_members_plain(stacks);
    lemma_clusters_plain(config.spec.clusters@);
    lemma_services_plain(config.spec.services@);
    lemma_runtime_plain(config.spec.runtime);
    if let Some(network) = config.spec.network {
        lemma_network_plain(network);
    }
    if let Some(certificates) = config.spec.certificates {
        lemma_certificates_plain(certificates);
    }
    let spec = spec_json(config.spec, config.spec.stacks@)->Object_0;
    assert(spec.len() == 6);
    assert(is_plain(spec[0].1));
    assert(is_plain(spec[1].1));
    assert(is_plain(spec[2].1));
    assert(is_plain(spec[3].1));
    assert(is_plain(spec[4].1));
    assert(is_plain(spec[5].1));
    assert(members_plain(spec));
    lemma_members_plain(spec);
    let fields = config_json(config, config.spec.stacks@)->Object_0;
    let metadata = fields[2].1->Object_0;
    assert(metadata.len() == 1);
    assert(is_plain(metadata[0].1));
    assert(members_plain(metadata));
    lemma_members_plain(metadata);
    assert(fields.len() == 4);
    assert(is_plain(fields[0].1));
    assert(is_plain(fields[1].1));
    assert(is_plain(fields[2].1));
    assert(is_plain(fields[3].1));
    assert(members_plain(fields));
    lemma_members_plain(fields);
}

/// Two configurations that differ in any field have different texts;
/// configurations that agree have the same.
pub proof fn law_config_text_determines_the_config(a: ForgeConfig, b: ForgeConfig)
    requires
        config_is_plain(a),
        config_is_plain(b),
    ensures
        compact(config_json(a, a.spec.stacks@)) == compact(config_json(b, b.spec.stacks@))
            <==> same_config(a, b),
{
    lemma_config_plain(a);
    lemma_config_plain(b);
    law_config_form_determines_the_config(a, b);
    let x = config_json(a, a.spec.stacks@);
    let y = config_json(b, b.spec.stacks@);
    if compact(x) == compact(y) {
        law_text_determines_the_value(x, y);
    }
}

// ---------------------------------------------------------------
// Members
// ---------------------------------------------------------------

/// A text as a value; null, if there is none.
pub open spec fn text_or_null(text: Option<String>) -> JsonView {
    match text {
        Some(t) => JsonView::String(t@),
        None => JsonView::Null,
    }
}

/// The fields of a port mapping stand under their own names.
pub proof fn law_port_members(value: PortMapping)
    ensures
        (port_json(value)->Object_0).len() == 4,
        port_json(value)->Object_0[0] == ("bindAddress"@, text_or_null(value.bind_address)),
        port_json(value)->Object_0[1] == ("container"@, JsonView::Number(decimal(value.container as nat))),
        port_json(value)->Object_0[2] == ("host"@, JsonView::Number(decimal(value.host as nat))),
        port_json(value)->Object_0[3] == ("protocol"@, JsonView::String(value.protocol@)),
{
}

/// The fields of node counts stand under their own names.
pub proof fn law_nodes_members(value: NodeConfig)
    ensures
        (nodes_json(value)->Object_0).len() == 2,
        nodes_json(value)->Object_0[0] == ("controlPlanes"@, JsonView::Number(decimal(value.control_planes as nat))),
        nodes_json(value)->Object_0[1] == ("workers"@, JsonView::Number(decimal(value.workers as nat))),
{
}

/// The fields of a volume stand under their own names.
pub proof fn law_volume_members(value: VolumeMount)
    ensures
        (volume_json(value)->Object_0).len() == 3,
        volume_json(value)->Object_0[0] == ("readOnly"@, JsonView::Bool(value.read_only)),
        volume_json(value)->Object_0[1] == ("source"@, JsonView::String(value.source@)),
        volume_json(value)->Object_0[2] == ("target"@, JsonView::String(value.target@)),
{
}

/// The fields of a health check stand under their own names.
pub proof fn law_health_check_members(value: HealthCheck)
    ensures
        (health_json(value)->Object_0).len() == 5,
        health_json(value)->Object_0[0] == ("interval"@, JsonView::String(value.interval@)),
        health_json(value)->Object_0[1] == ("port"@, JsonView::Number(decimal(value.port as nat))),
        health_json(value)->Object_0[2] == ("retries"@, JsonView::Number(decimal(value.retries as nat))),
        health_json(value)->Object_0[3] == ("timeout"@, JsonView::String(value.timeout@)),
        health_json(value)->Object_0[4] == ("type"@, JsonView::String(check_type_word(value.check_type))),
{
}

/// The network settings stand under their own names.
pub proof fn law_network_members(value: NetworkConfig)
    ensures
        (network_json(value)->Object_0).len() == 2,
        network_json(value)->Object_0[0] == ("crossCluster"@, JsonView::Bool(value.cross_cluster)),
        network_json(value)->Object_0[1] == ("dnsZone"@, text_or_null(value.dns_zone)),
{
}

/// The certificate settings stand under their own names.
pub proof fn law_certificates_members(value: CertificateConfig)
    ensures
        (certificates_json(value)->Object_0).len() == 1,
        certificates_json(value)->Object_0[0] == ("enabled"@, JsonView::Bool(value.enabled)),
{
}

/// The runtime settings stand under their own names.
pub proof fn law_runtime_members(value: RuntimeConfig)
    ensures
        (runtime_json(value)->Object_0).len() == 2,
        runtime_json(value)->Object_0[0] == ("clusterPrefix"@, JsonView::String(value.cluster_prefix@)),
        runtime_json(value)->Object_0[1] == ("provider"@, JsonView::String(provider_word(value.provider))),
{
}

/// The fields of a cluster stand under their own names.
pub proof fn law_cluster_members(value: ClusterSpec)
    ensures
        (cluster_json(value)->Object_0).len() == 5,
        cluster_json(value)->Object_0[0] == ("name"@, JsonView::String(value.name@)),
        cluster_json(value)->Object_0[1] == ("nodes"@, nodes_json(value.nodes)),
        cluster_json(value)->Object_0[2] == ("ports"@, port_list_json(value.ports@)),
        cluster_json(value)->Object_0[3] == ("properties"@, JsonView::Object(map_views(value.properties@))),
        cluster_json(value)->Object_0[4] == ("stacks"@, texts_json(value.stacks@)),
{
}

/// The fields of a service stand under their own names.
pub proof fn law_service_members(value: ServiceSpec)
    ensures
        (service_json(value)->Object_0).len() == 12,
        service_json(value)->Object_0[0] == ("args"@, texts_json(value.args@)),
        service_json(value)->Object_0[1] == ("autoStart"@, JsonView::Bool(value.auto_start)),
        service_json(value)->Object_0[2] == ("dependsOn"@, texts_json(value.depends_on@)),
        service_json(value)->Object_0[3] == ("env"@, JsonView::Object(text_map_views(value.env@))),
        service_json(value)->Object_0[4] == ("healthCheck"@, optional_health_json(value.health_check)),
        service_json(value)->Object_0[5] == ("image"@, JsonView::String(value.image@)),
        service_json(value)->Object_0[6] == ("inheritHostGroup"@, JsonView::Bool(value.inherit_host_group)),
        service_json(value)->Object_0[7] == ("name"@, JsonView::String(value.name@)),
        service_json(value)->Object_0[8] == ("network"@, JsonView::String(network_mode_word(value.network))),
        service_json(value)->Object_0[9] == ("ports"@, port_list_json(value.ports@)),
        service_json(value)->Object_0[10] == ("restart"@, JsonView::String(restart_word(value.restart))),
        service_json(value)->Object_0[11] == ("volumes"@, volume_list_json(value.volumes@)),
{
}

/// The fields of a stack stand under their own names.
pub proof fn law_stack_members(value: StackSpec)
    ensures
        (stack_json(value)->Object_0).len() == 2,
        stack_json(value)->Object_0[0] == ("description"@, text_or_null(value.description)),
        stack_json(value)->Object_0[1] == ("steps"@, JsonView::Array(steps_json(value.steps, value.steps.len() as int))),
{
}

/// The fields of a step stand under their own names, behind its type.
pub proof fn law_step_members(step: StepSpec)
    ensures
        step_json(step)->Object_0[0] == ("type"@, JsonView::String(step_type_word(step))),
        step matches StepSpec::Url { url, sha256 } ==> {
            &&& (step_json(step)->Object_0).len() == 3
            &&& step_json(step)->Object_0[1] == ("url"@, JsonView::String(url@))
            &&& step_json(step)->Object_0[2] == ("sha256"@, JsonView::String(sha256@))
        },
        step matches StepSpec::Manifest { path } ==> {
            &&& (step_json(step)->Object_0).len() == 2
            &&& step_json(step)->Object_0[1] == ("path"@, JsonView::String(path@))
        },
        step matches StepSpec::Kustomize { path } ==> {
            &&& (step_json(step)->Object_0).len() == 2
            &&& step_json(step)->Object_0[1] == ("path"@, JsonView::String(path@))
        },
        step matches StepSpec::Helm { release, chart, version, namespace, values } ==> {
            &&& (step_json(step)->Object_0).len() == 6
            &&& step_json(step)->Object_0[1] == ("release"@, JsonView::String(release@))
            &&& step_json(step)->Object_0[2] == ("chart"@, JsonView::String(chart@))
            &&& step_json(step)->Object_0[3] == ("version"@, JsonView::String(version@))
            &&& step_json(step)->Object_0[4] == ("namespace"@, text_or_null(namespace))
            &&& step_json(step)->Object_0[5] == ("values"@, JsonView::Object(map_views(values@)))
        },
        step matches StepSpec::Deployment { name, image, replicas, namespace } ==> {
            &&& (step_json(step)->Object_0).len() == 5
            &&& step_json(step)->Object_0[1] == ("name"@, JsonView::String(name@))
            &&& step_json(step)->Object_0[2] == ("image"@, JsonView::String(image@))
            &&& step_json(step)->Object_0[3] == ("replicas"@, JsonView::Number(decimal(replicas as nat)))
            &&& step_json(step)->Object_0[4] == ("namespace"@, text_or_null(namespace))
        },
        step matches StepSpec::Service { name, port, namespace } ==> {
            &&& (step_json(step)->Object_0).len() == 4
            &&& step_json(step)->Object_0[1] == ("name"@, JsonView::String(name@))
            &&& step_json(step)->Object_0[2] == ("port"@, JsonView::Number(decimal(port as nat)))
            &&& step_json(step)->Object_0[3] == ("namespace"@, text_or_null(namespace))
        },
        step matches StepSpec::Wait { resource, condition, timeout, namespace } ==> {
            &&& (step_json(step)->Object_0).len() == 5
            &&& step_json(step)->Object_0[1] == ("resource"@, JsonView::String(resource@))
            &&& step_json(step)->Object_0[2] == ("condition"@, JsonView::String(condition@))
            &&& step_json(step)->Object_0[3] == ("timeout"@, JsonView::String(timeout@))
            &&& step_json(step)->Object_0[4] == ("namespace"@, text_or_null(namespace))
        },
        step matches StepSpec::Exec { command, env } ==> {
            &&& (step_json(step)->Object_0).len() == 3
            &&& step_json(step)->Object_0[1] == ("command"@, texts_json(command@))
            &&& step_json(step)->Object_0[2] == ("env"@, JsonView::Object(text_map_views(env@)))
        },
        step matches StepSpec::ForEach { property, steps } ==> {
            &&& (step_json(step)->Object_0).len() == 3
            &&& step_json(step)->Object_0[1] == ("property"@, JsonView::String(property@))
            &&& step_json(step)->Object_0[2] == ("steps"@, JsonView::Array(steps_json(steps, steps.len() as int)))
        },
        step matches StepSpec::MetallbAutoPool { name } ==> {
            &&& (step_json(step)->Object_0).len() == 2
            &&& step_json(step)->Object_0[1] == ("name"@, JsonView::String(name@))
        },
        step matches StepSpec::CoreDnsForward { zone, upstreams } ==> {
            &&& (step_json(step)->Object_0).len() == 3
            &&& step_json(step)->Object_0[1] == ("zone"@, JsonView::String(zone@))
            &&& step_json(step)->Object_0[2] == ("upstreams"@, texts_json(upstreams@))
        },
        step matches StepSpec::Capture { resource, namespace, jsonpath, key, timeout, interval } ==> {
            &&& (step_json(step)->Object_0).len() == 7
            &&& step_json(step)->Object_0[1] == ("resource"@, JsonView::String(resource@))
            &&& step_json(step)->Object_0[2] == ("namespace"@, text_or_null(namespace))
            &&& step_json(step)->Object_0[3] == ("jsonpath"@, JsonView::String(jsonpath@))
            &&& step_json(step)->Object_0[4] == ("key"@, JsonView::String(key@))
            &&& step_json(step)->Object_0[5] == ("timeout"@, JsonView::String(timeout@))
            &&& step_json(step)->Object_0[6] == ("interval"@, JsonView::String(interval@))
        },
        step matches StepSpec::TemplateManifest { path } ==> {
            &&& (step_json(step)->Object_0).len() == 2
            &&& step_json(step)->Object_0[1] == ("path"@, JsonView::String(path@))
        },
        step matches StepSpec::TemplateFile { source, target } ==> {
            &&& (step_json(step)->Object_0).len() == 3
            &&& step_json(step)->Object_0[1] == ("source"@, JsonView::String(source@))
            &&& step_json(step)->Object_0[2] == ("target"@, JsonView::String(target@))
        },
{
}

/// The words for the settings that are chosen from a few.
pub proof fn law_choices_have_their_words(
    provider: RuntimeProvider,
    network: NetworkMode,
    restart: RestartPolicy,
    check: HealthCheckType,
)
    ensures
        provider_word(provider) == match provider {
            RuntimeProvider::Podman => "podman"@,
            RuntimeProvider::Docker => "docker"@,
            RuntimeProvider::Auto => "auto"@,
        },
        network_mode_word(network) == match network {
            NetworkMode::Host => "host"@,
            NetworkMode::Environment => "environment"@,
            NetworkMode::Detached => "none"@,
        },
        restart_word(restart) == match restart {
            RestartPolicy::Always => "always"@,
            RestartPolicy::No => "no"@,
            RestartPolicy::OnFailure => "on-failure"@,
            RestartPolicy::UnlessStopped => "unless-stopped"@,
        },
        check_type_word(check) == "tcp"@,
{
}

/// The parts of a configuration and of its environment stand under their own
/// names.
pub proof fn law_config_members(value: ForgeConfig)
    ensures
        ({
            let config = config_json(value, value.spec.stacks@)->Object_0;
            let spec = spec_json(value.spec, value.spec.stacks@)->Object_0;
            &&& config.len() == 4
            &&& config[0] == ("apiVersion"@, JsonView::String(value.api_version@))
            &&& config[1] == ("kind"@, JsonView::String(value.kind@))
            &&& config[2].0 == "metadata"@
            &&& (config[2].1->Object_0).len() == 1
            &&& config[2].1->Object_0[0] == ("name"@, JsonView::String(value.metadata.name@))
            &&& config[3] == ("spec"@, spec_json(value.spec, value.spec.stacks@))
            &&& spec.len() == 6
            &&& spec[0] == ("certificates"@, optional_certificates_json(value.spec.certificates))
            &&& spec[1] == ("clusters"@, cluster_list_json(value.spec.clusters@))
            &&& spec[2] == ("network"@, optional_network_json(value.spec.network))
            &&& spec[3] == ("runtime"@, runtime_json(value.spec.runtime))
            &&& spec[4] == ("services"@, service_list_json(value.spec.services@))
            &&& spec[5] == ("stacks"@, JsonView::Object(stacks_json(value.spec.stacks@)))
        }),
{
}

} // verus!
