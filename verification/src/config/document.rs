//! The JSON form of a configuration.
//!
//! The members of the environment objects stand in alphabetical order, those
//! of a stack in the order of declaration with the type of a step first.

pub mod laws;

use vstd::prelude::*;
use crate::config::{
    CertificateConfig, ClusterSpec, EnvironmentSpec, ForgeConfig, HealthCheck, HealthCheckType,
    NetworkConfig, NetworkMode, NodeConfig, PortMapping, RestartPolicy, RuntimeConfig,
    RuntimeProvider, ServiceSpec, StackSpec, StepSpec, VolumeMount,
};
use crate::json::{
    item_views, map_views, object_of_map, object_of_texts, optional_view, text_map_views, Json,
    JsonView, ObjectBuilder,
};
use crate::numeral::decimal;
use crate::strmap::StrMap;
use crate::text::{borrow_text, opt_text};

verus! {

// ---------------------------------------------------------------
// Words
// ---------------------------------------------------------------

/// The word for a runtime provider.
pub open spec fn provider_word(value: RuntimeProvider) -> Seq<char> {
    match value {
        RuntimeProvider::Auto => "auto"@,
        RuntimeProvider::Docker => "docker"@,
        RuntimeProvider::Podman => "podman"@,
    }
}

fn provider_text(value: RuntimeProvider) -> (r: &'static str)
    ensures
        r@ == provider_word(value),
{
    match value {
        RuntimeProvider::Auto => "auto",
        RuntimeProvider::Docker => "docker",
        RuntimeProvider::Podman => "podman",
    }
}

/// The word for a network attachment.
pub open spec fn network_mode_word(value: NetworkMode) -> Seq<char> {
    match value {
        NetworkMode::Detached => "none"@,
        NetworkMode::Host => "host"@,
        NetworkMode::Environment => "environment"@,
    }
}

fn network_mode_text(value: NetworkMode) -> (r: &'static str)
    ensures
        r@ == network_mode_word(value),
{
    match value {
        NetworkMode::Detached => "none",
        NetworkMode::Host => "host",
        NetworkMode::Environment => "environment",
    }
}

/// The word for a restart policy.
pub open spec fn restart_word(value: RestartPolicy) -> Seq<char> {
    match value {
        RestartPolicy::No => "no"@,
        RestartPolicy::OnFailure => "on-failure"@,
        RestartPolicy::Always => "always"@,
        RestartPolicy::UnlessStopped => "unless-stopped"@,
    }
}

fn restart_text(value: RestartPolicy) -> (r: &'static str)
    ensures
        r@ == restart_word(value),
{
    match value {
        RestartPolicy::No => "no",
        RestartPolicy::OnFailure => "on-failure",
        RestartPolicy::Always => "always",
        RestartPolicy::UnlessStopped => "unless-stopped",
    }
}

/// The word for a kind of health probe.
pub open spec fn check_type_word(value: HealthCheckType) -> Seq<char> {
    match value {
        HealthCheckType::Tcp => "tcp"@,
    }
}

fn check_type_text(value: HealthCheckType) -> (r: &'static str)
    ensures
        r@ == check_type_word(value),
{
    match value {
        HealthCheckType::Tcp => "tcp",
    }
}

/// A list of texts as a value.
pub open spec fn texts_json(items: Seq<String>) -> JsonView {
    JsonView::Array(Seq::new(items.len(), |i: int| JsonView::String(items[i]@)))
}

/// A number as a value.
pub open spec fn number_json(n: nat) -> JsonView {
    JsonView::Number(decimal(n))
}

// ---------------------------------------------------------------
// Clusters and services
// ---------------------------------------------------------------

/// A port mapping as a value.
pub open spec fn port_json(value: PortMapping) -> JsonView {
    JsonView::Object(
        seq![
            ("bindAddress"@, optional_view(opt_text(value.bind_address))),
            ("container"@, number_json(value.container as nat)),
            ("host"@, number_json(value.host as nat)),
            ("protocol"@, JsonView::String(value.protocol@)),
        ],
    )
}

/// Renders a port mapping.
pub fn port_value(value: &PortMapping) -> (r: Json)
    ensures
        r@ == port_json(*value),
{
    let mut object = ObjectBuilder::new();
    object.put("bindAddress", Json::optional(borrow_text(&value.bind_address)));
    object.put("container", Json::number(value.container as u64));
    object.put("host", Json::number(value.host as u64));
    object.put("protocol", Json::text(&value.protocol));
    assert(object@ =~= port_json(*value)->Object_0);
    object.finish()
}

/// The list of port mappings.
pub open spec fn port_list_json(items: Seq<PortMapping>) -> JsonView {
    JsonView::Array(Seq::new(items.len(), |i: int| port_json(items[i])))
}

fn port_list_value(items: &Vec<PortMapping>) -> (r: Json)
    ensures
        r@ == port_list_json(items@),
{
    let ghost all = Seq::new(items@.len(), |i: int| port_json(items@[i]));
    let mut list: Vec<Json> = Vec::new();
    let mut i: usize = 0;
    assert(item_views(list@) =~= all.take(0));
    while i < items.len()
        invariant
            i <= items@.len(),
            all == Seq::new(items@.len(), |i: int| port_json(items@[i])),
            item_views(list@) == all.take(i as int),
        decreases items.len() - i,
    {
        let ghost before = list@;
        list.push(port_value(&items[i]));
        i += 1;
        assert(item_views(list@) =~= item_views(before).push(all[i - 1]));
        assert(item_views(list@) =~= all.take(i as int));
    }
    assert(all.take(i as int) =~= all);
    Json::list(list)
}

/// Node counts as a value.
pub open spec fn nodes_json(value: NodeConfig) -> JsonView {
    JsonView::Object(
        seq![
            ("controlPlanes"@, number_json(value.control_planes as nat)),
            ("workers"@, number_json(value.workers as nat)),
        ],
    )
}

/// Renders node counts.
pub fn nodes_value(value: &NodeConfig) -> (r: Json)
    ensures
        r@ == nodes_json(*value),
{
    let mut object = ObjectBuilder::new();
    object.put("controlPlanes", Json::number(value.control_planes as u64));
    object.put("workers", Json::number(value.workers as u64));
    assert(object@ =~= nodes_json(*value)->Object_0);
    object.finish()
}

/// A cluster as a value.
pub open spec fn cluster_json(value: ClusterSpec) -> JsonView {
    JsonView::Object(
        seq![
            ("name"@, JsonView::String(value.name@)),
            ("nodes"@, nodes_json(value.nodes)),
            ("ports"@, port_list_json(value.ports@)),
            ("properties"@, JsonView::Object(map_views(value.properties@))),
            ("stacks"@, texts_json(value.stacks@)),
        ],
    )
}

/// Renders a cluster.
pub fn cluster_value(value: &ClusterSpec) -> (r: Json)
    ensures
        r@ == cluster_json(*value),
{
    let mut object = ObjectBuilder::new();
    object.put("name", Json::text(&value.name));
    object.put("nodes", nodes_value(&value.nodes));
    object.put("ports", port_list_value(&value.ports));
    object.put("properties", object_of_map(&value.properties));
    object.put("stacks", Json::texts(&value.stacks));
    assert(object@ =~= cluster_json(*value)->Object_0);
    object.finish()
}

/// The list of clusters.
pub open spec fn cluster_list_json(items: Seq<ClusterSpec>) -> JsonView {
    JsonView::Array(Seq::new(items.len(), |i: int| cluster_json(items[i])))
}

fn cluster_list_value(items: &Vec<ClusterSpec>) -> (r: Json)
    ensures
        r@ == cluster_list_json(items@),
{
    let ghost all = Seq::new(items@.len(), |i: int| cluster_json(items@[i]));
    let mut list: Vec<Json> = Vec::new();
    let mut i: usize = 0;
    assert(item_views(list@) =~= all.take(0));
    while i < items.len()
        invariant
            i <= items@.len(),
            all == Seq::new(items@.len(), |i: int| cluster_json(items@[i])),
            item_views(list@) == all.take(i as int),
        decreases items.len() - i,
    {
        let ghost before = list@;
        list.push(cluster_value(&items[i]));
        i += 1;
        assert(item_views(list@) =~= item_views(before).push(all[i - 1]));
        assert(item_views(list@) =~= all.take(i as int));
    }
    assert(all.take(i as int) =~= all);
    Json::list(list)
}

/// A health check as a value.
pub open spec fn health_json(value: HealthCheck) -> JsonView {
    JsonView::Object(
        seq![
            ("interval"@, JsonView::String(value.interval@)),
            ("port"@, number_json(value.port as nat)),
            ("retries"@, number_json(value.retries as nat)),
            ("timeout"@, JsonView::String(value.timeout@)),
            ("type"@, JsonView::String(check_type_word(value.check_type))),
        ],
    )
}

/// Renders a health check.
pub fn health_value(value: &HealthCheck) -> (r: Json)
    ensures
        r@ == health_json(*value),
{
    let mut object = ObjectBuilder::new();
    object.put("interval", Json::text(&value.interval));
    object.put("port", Json::number(value.port as u64));
    object.put("retries", Json::number(value.retries as u64));
    object.put("timeout", Json::text(&value.timeout));
    object.put("type", Json::text(check_type_text(value.check_type)));
    assert(object@ =~= health_json(*value)->Object_0);
    object.finish()
}

/// A health check as a value, or null.
pub open spec fn optional_health_json(value: Option<HealthCheck>) -> JsonView {
    match value {
        Some(v) => health_json(v),
        None => JsonView::Null,
    }
}

fn optional_health_value(value: &Option<HealthCheck>) -> (r: Json)
    ensures
        r@ == optional_health_json(*value),
{
    match value {
        Some(v) => health_value(v),
        None => Json::Null,
    }
}

/// A volume as a value.
pub open spec fn volume_json(value: VolumeMount) -> JsonView {
    JsonView::Object(
        seq![
            ("readOnly"@, JsonView::Bool(value.read_only)),
            ("source"@, JsonView::String(value.source@)),
            ("target"@, JsonView::String(value.target@)),
        ],
    )
}

/// Renders a volume.
pub fn volume_value(value: &VolumeMount) -> (r: Json)
    ensures
        r@ == volume_json(*value),
{
    let mut object = ObjectBuilder::new();
    object.put("readOnly", Json::Bool(value.read_only));
    object.put("source", Json::text(&value.source));
    object.put("target", Json::text(&value.target));
    assert(object@ =~= volume_json(*value)->Object_0);
    object.finish()
}

/// The list of volumes.
pub open spec fn volume_list_json(items: Seq<VolumeMount>) -> JsonView {
    JsonView::Array(Seq::new(items.len(), |i: int| volume_json(items[i])))
}

fn volume_list_value(items: &Vec<VolumeMount>) -> (r: Json)
    ensures
        r@ == volume_list_json(items@),
{
    let ghost all = Seq::new(items@.len(), |i: int| volume_json(items@[i]));
    let mut list: Vec<Json> = Vec::new();
    let mut i: usize = 0;
    assert(item_views(list@) =~= all.take(0));
    while i < items.len()
        invariant
            i <= items@.len(),
            all == Seq::new(items@.len(), |i: int| volume_json(items@[i])),
            item_views(list@) == all.take(i as int),
        decreases items.len() - i,
    {
        let ghost before = list@;
        list.push(volume_value(&items[i]));
        i += 1;
        assert(item_views(list@) =~= item_views(before).push(all[i - 1]));
        assert(item_views(list@) =~= all.take(i as int));
    }
    assert(all.take(i as int) =~= all);
    Json::list(list)
}

/// A service as a value.
pub open spec fn service_json(value: ServiceSpec) -> JsonView {
    JsonView::Object(
        seq![
            ("args"@, texts_json(value.args@)),
            ("autoStart"@, JsonView::Bool(value.auto_start)),
            ("dependsOn"@, texts_json(value.depends_on@)),
            ("env"@, JsonView::Object(text_map_views(value.env@))),
            ("healthCheck"@, optional_health_json(value.health_check)),
            ("image"@, JsonView::String(value.image@)),
            ("inheritHostGroup"@, JsonView::Bool(value.inherit_host_group)),
            ("name"@, JsonView::String(value.name@)),
            ("network"@, JsonView::String(network_mode_word(value.network))),
            ("ports"@, port_list_json(value.ports@)),
            ("restart"@, JsonView::String(restart_word(value.restart))),
            ("volumes"@, volume_list_json(value.volumes@)),
        ],
    )
}

/// Renders a service.
pub fn service_value(value: &ServiceSpec) -> (r: Json)
    ensures
        r@ == service_json(*value),
{
    let mut object = ObjectBuilder::new();
    object.put("args", Json::texts(&value.args));
    object.put("autoStart", Json::Bool(value.auto_start));
    object.put("dependsOn", Json::texts(&value.depends_on));
    object.put("env", object_of_texts(&value.env));
    object.put("healthCheck", optional_health_value(&value.health_check));
    object.put("image", Json::text(&value.image));
    object.put("inheritHostGroup", Json::Bool(value.inherit_host_group));
    object.put("name", Json::text(&value.name));
    object.put("network", Json::text(network_mode_text(value.network)));
    object.put("ports", port_list_value(&value.ports));
    object.put("restart", Json::text(restart_text(value.restart)));
    object.put("volumes", volume_list_value(&value.volumes));
    assert(object@ =~= service_json(*value)->Object_0);
    object.finish()
}

/// The list of services.
pub open spec fn service_list_json(items: Seq<ServiceSpec>) -> JsonView {
    JsonView::Array(Seq::new(items.len(), |i: int| service_json(items[i])))
}

fn service_list_value(items: &Vec<ServiceSpec>) -> (r: Json)
    ensures
        r@ == service_list_json(items@),
{
    let ghost all = Seq::new(items@.len(), |i: int| service_json(items@[i]));
    let mut list: Vec<Json> = Vec::new();
    let mut i: usize = 0;
    assert(item_views(list@) =~= all.take(0));
    while i < items.len()
        invariant
            i <= items@.len(),
            all == Seq::new(items@.len(), |i: int| service_json(items@[i])),
            item_views(list@) == all.take(i as int),
        decreases items.len() - i,
    {
        let ghost before = list@;
        list.push(service_value(&items[i]));
        i += 1;
        assert(item_views(list@) =~= item_views(before).push(all[i - 1]));
        assert(item_views(list@) =~= all.take(i as int));
    }
    assert(all.take(i as int) =~= all);
    Json::list(list)
}

// ---------------------------------------------------------------
// Stacks
// ---------------------------------------------------------------

/// The word for the type of a step.
pub open spec fn step_type_word(step: StepSpec) -> Seq<char> {
    match step {
        StepSpec::Url { .. } => "url"@,
        StepSpec::Manifest { .. } => "manifest"@,
        StepSpec::Kustomize { .. } => "kustomize"@,
        StepSpec::Helm { .. } => "helm"@,
        StepSpec::Deployment { .. } => "deployment"@,
        StepSpec::Service { .. } => "service"@,
        StepSpec::Wait { .. } => "wait"@,
        StepSpec::Exec { .. } => "exec"@,
        StepSpec::ForEach { .. } => "for-each"@,
        StepSpec::MetallbAutoPool { .. } => "metallb-auto-pool"@,
        StepSpec::CoreDnsForward { .. } => "core-dns-forward"@,
        StepSpec::Capture { .. } => "capture"@,
        StepSpec::TemplateManifest { .. } => "template-manifest"@,
        StepSpec::TemplateFile { .. } => "template-file"@,
    }
}

/// Return a short type label for a step.
pub fn step_type_label(step: &StepSpec) -> (r: &'static str)
    ensures
        r@ == step_type_word(*step),
{
    match step {
        StepSpec::Url { .. } => "url",
        StepSpec::Manifest { .. } => "manifest",
        StepSpec::Kustomize { .. } => "kustomize",
        StepSpec::Helm { .. } => "helm",
        StepSpec::Deployment { .. } => "deployment",
        StepSpec::Service { .. } => "service",
        StepSpec::Wait { .. } => "wait",
        StepSpec::Exec { .. } => "exec",
        StepSpec::ForEach { .. } => "for-each",
        StepSpec::MetallbAutoPool { .. } => "metallb-auto-pool",
        StepSpec::CoreDnsForward { .. } => "core-dns-forward",
        StepSpec::Capture { .. } => "capture",
        StepSpec::TemplateManifest { .. } => "template-manifest",
        StepSpec::TemplateFile { .. } => "template-file",
    }
}

/// A step as a value.
pub open spec fn step_json(step: StepSpec) -> JsonView
    decreases step, 0int,
{
    let tag = ("type"@, JsonView::String(step_type_word(step)));
    match step {
        StepSpec::Url { url, sha256 } => JsonView::Object(
            seq![
                tag,
                ("url"@, JsonView::String(url@)),
                ("sha256"@, JsonView::String(sha256@)),
            ],
        ),
        StepSpec::Manifest { path } => JsonView::Object(
            seq![
                tag,
                ("path"@, JsonView::String(path@)),
            ],
        ),
        StepSpec::Kustomize { path } => JsonView::Object(
            seq![
                tag,
                ("path"@, JsonView::String(path@)),
            ],
        ),
        StepSpec::Helm { release, chart, version, namespace, values } => JsonView::Object(
            seq![
                tag,
                ("release"@, JsonView::String(release@)),
                ("chart"@, JsonView::String(chart@)),
                ("version"@, JsonView::String(version@)),
                ("namespace"@, optional_view(opt_text(namespace))),
                ("values"@, JsonView::Object(map_views(values@))),
            ],
        ),
        StepSpec::Deployment { name, image, replicas, namespace } => JsonView::Object(
            seq![
                tag,
                ("name"@, JsonView::String(name@)),
                ("image"@, JsonView::String(image@)),
                ("replicas"@, number_json(replicas as nat)),
                ("namespace"@, optional_view(opt_text(namespace))),
            ],
        ),
        StepSpec::Service { name, port, namespace } => JsonView::Object(
            seq![
                tag,
                ("name"@, JsonView::String(name@)),
                ("port"@, number_json(port as nat)),
                ("namespace"@, optional_view(opt_text(namespace))),
            ],
        ),
        StepSpec::Wait { resource, condition, timeout, namespace } => JsonView::Object(
            seq![
                tag,
                ("resource"@, JsonView::String(resource@)),
                ("condition"@, JsonView::String(condition@)),
                ("timeout"@, JsonView::String(timeout@)),
                ("namespace"@, optional_view(opt_text(namespace))),
            ],
        ),
        StepSpec::Exec { command, env } => JsonView::Object(
            seq![
                tag,
                ("command"@, texts_json(command@)),
                ("env"@, JsonView::Object(text_map_views(env@))),
            ],
        ),
        StepSpec::ForEach { property, steps } => JsonView::Object(
            seq![
                tag,
                ("property"@, JsonView::String(property@)),
                ("steps"@, JsonView::Array(steps_json(steps, steps.len() as int))),
            ],
        ),
        StepSpec::MetallbAutoPool { name } => JsonView::Object(
            seq![
                tag,
                ("name"@, JsonView::String(name@)),
            ],
        ),
        StepSpec::CoreDnsForward { zone, upstreams } => JsonView::Object(
            seq![
                tag,
                ("zone"@, JsonView::String(zone@)),
                ("upstreams"@, texts_json(upstreams@)),
            ],
        ),
        StepSpec::Capture { resource, namespace, jsonpath, key, timeout, interval } => JsonView::Object(
            seq![
                tag,
                ("resource"@, JsonView::String(resource@)),
                ("namespace"@, optional_view(opt_text(namespace))),
                ("jsonpath"@, JsonView::String(jsonpath@)),
                ("key"@, JsonView::String(key@)),
                ("timeout"@, JsonView::String(timeout@)),
                ("interval"@, JsonView::String(interval@)),
            ],
        ),
        StepSpec::TemplateManifest { path } => JsonView::Object(
            seq![
                tag,
                ("path"@, JsonView::String(path@)),
            ],
        ),
        StepSpec::TemplateFile { source, target } => JsonView::Object(
            seq![
                tag,
                ("source"@, JsonView::String(source@)),
                ("target"@, JsonView::String(target@)),
            ],
        ),
    }
}

/// The first `n` steps of a list as values.
pub open spec fn steps_json(steps: Vec<StepSpec>, n: int) -> Seq<JsonView>
    decreases steps, n,
{
    if n <= 0 || n > steps.len() {
        Seq::empty()
    } else {
        steps_json(steps, n - 1).push(step_json(steps[n - 1]))
    }
}

/// Renders a step.
pub fn step_value(step: &StepSpec) -> (r: Json)
    ensures
        r@ == step_json(*step),
    decreases step,
{
    let mut object = ObjectBuilder::new();
    object.put("type", Json::text(step_type_label(step)));
    match step {
        StepSpec::Url { url, sha256 } => {
            object.put("url", Json::text(url));
            object.put("sha256", Json::text(sha256));
            assert(object@ =~= step_json(*step)->Object_0);
        },
        StepSpec::Manifest { path } => {
            object.put("path", Json::text(path));
            assert(object@ =~= step_json(*step)->Object_0);
        },
        StepSpec::Kustomize { path } => {
            object.put("path", Json::text(path));
            assert(object@ =~= step_json(*step)->Object_0);
        },
        StepSpec::Helm { release, chart, version, namespace, values } => {
            object.put("release", Json::text(release));
            object.put("chart", Json::text(chart));
            object.put("version", Json::text(version));
            object.put("namespace", Json::optional(borrow_text(namespace)));
            object.put("values", object_of_map(values));
            assert(object@ =~= step_json(*step)->Object_0);
        },
        StepSpec::Deployment { name, image, replicas, namespace } => {
            object.put("name", Json::text(name));
            object.put("image", Json::text(image));
            object.put("replicas", Json::number(*replicas as u64));
            object.put("namespace", Json::optional(borrow_text(namespace)));
            assert(object@ =~= step_json(*step)->Object_0);
        },
        StepSpec::Service { name, port, namespace } => {
            object.put("name", Json::text(name));
            object.put("port", Json::number(*port as u64));
            object.put("namespace", Json::optional(borrow_text(namespace)));
            assert(object@ =~= step_json(*step)->Object_0);
        },
        StepSpec::Wait { resource, condition, timeout, namespace } => {
            object.put("resource", Json::text(resource));
            object.put("condition", Json::text(condition));
            object.put("timeout", Json::text(timeout));
            object.put("namespace", Json::optional(borrow_text(namespace)));
            assert(object@ =~= step_json(*step)->Object_0);
        },
        StepSpec::Exec { command, env } => {
            object.put("command", Json::texts(command));
            object.put("env", object_of_texts(env));
            assert(object@ =~= step_json(*step)->Object_0);
        },
        StepSpec::ForEach { property, steps } => {
            object.put("property", Json::text(property));
            object.put("steps", Json::list(steps_value(steps)));
            assert(object@ =~= step_json(*step)->Object_0);
        },
        StepSpec::MetallbAutoPool { name } => {
            object.put("name", Json::text(name));
            assert(object@ =~= step_json(*step)->Object_0);
        },
        StepSpec::CoreDnsForward { zone, upstreams } => {
            object.put("zone", Json::text(zone));
            object.put("upstreams", Json::texts(upstreams));
            assert(object@ =~= step_json(*step)->Object_0);
        },
        StepSpec::Capture { resource, namespace, jsonpath, key, timeout, interval } => {
            object.put("resource", Json::text(resource));
            object.put("namespace", Json::optional(borrow_text(namespace)));
            object.put("jsonpath", Json::text(jsonpath));
            object.put("key", Json::text(key));
            object.put("timeout", Json::text(timeout));
            object.put("interval", Json::text(interval));
            assert(object@ =~= step_json(*step)->Object_0);
        },
        StepSpec::TemplateManifest { path } => {
            object.put("path", Json::text(path));
            assert(object@ =~= step_json(*step)->Object_0);
        },
        StepSpec::TemplateFile { source, target } => {
            object.put("source", Json::text(source));
            object.put("target", Json::text(target));
            assert(object@ =~= step_json(*step)->Object_0);
        },
    }
    object.finish()
}

fn steps_value(steps: &Vec<StepSpec>) -> (r: Vec<Json>)
    ensures
        item_views(r@) == steps_json(*steps, steps.len() as int),
    decreases steps,
{
    let mut r: Vec<Json> = Vec::new();
    let mut i: usize = 0;
    assert(item_views(r@) =~= steps_json(*steps, 0));
    while i < steps.len()
        invariant
            i <= steps@.len(),
            item_views(r@) == steps_json(*steps, i as int),
        decreases steps.len() - i,
    {
        let ghost before = r@;
        r.push(step_value(&steps[i]));
        i += 1;
        assert(item_views(r@) =~= item_views(before).push(step_json(steps@[i - 1])));
    }
    r
}

/// A stack as a value.
pub open spec fn stack_json(stack: StackSpec) -> JsonView {
    JsonView::Object(
        seq![
            ("description"@, optional_view(opt_text(stack.description))),
            ("steps"@, JsonView::Array(steps_json(stack.steps, stack.steps.len() as int))),
        ],
    )
}

/// Renders a stack.
pub fn stack_value(stack: &StackSpec) -> (r: Json)
    ensures
        r@ == stack_json(*stack),
{
    let mut object = ObjectBuilder::new();
    object.put("description", Json::optional(borrow_text(&stack.description)));
    object.put("steps", Json::list(steps_value(&stack.steps)));
    assert(object@ =~= stack_json(*stack)->Object_0);
    object.finish()
}

/// The stacks by name.
pub open spec fn stacks_json(stacks: Seq<(Seq<char>, StackSpec)>) -> Seq<(Seq<char>, JsonView)> {
    Seq::new(stacks.len(), |i: int| (stacks[i].0, stack_json(stacks[i].1)))
}

fn stacks_value(stacks: &StrMap<StackSpec>) -> (r: Json)
    ensures
        r@ == JsonView::Object(stacks_json(stacks@)),
{
    let mut object = ObjectBuilder::new();
    let mut i: usize = 0;
    assert(object@ =~= stacks_json(stacks@).take(0));
    while i < stacks.len()
        invariant
            i <= stacks@.len(),
            object@ == stacks_json(stacks@).take(i as int),
        decreases stacks@.len() - i,
    {
        object.put(stacks.key_at(i), stack_value(stacks.value_at(i)));
        i += 1;
        assert(object@ =~= stacks_json(stacks@).take(i as int));
    }
    assert(stacks_json(stacks@).take(i as int) =~= stacks_json(stacks@));
    object.finish()
}

// ---------------------------------------------------------------
// Environment
// ---------------------------------------------------------------

/// The runtime settings as a value.
pub open spec fn runtime_json(value: RuntimeConfig) -> JsonView {
    JsonView::Object(
        seq![
            ("clusterPrefix"@, JsonView::String(value.cluster_prefix@)),
            ("provider"@, JsonView::String(provider_word(value.provider))),
        ],
    )
}

/// Renders the runtime settings.
pub fn runtime_value(value: &RuntimeConfig) -> (r: Json)
    ensures
        r@ == runtime_json(*value),
{
    let mut object = ObjectBuilder::new();
    object.put("clusterPrefix", Json::text(&value.cluster_prefix));
    object.put("provider", Json::text(provider_text(value.provider)));
    assert(object@ =~= runtime_json(*value)->Object_0);
    object.finish()
}

/// The network settings as a value.
pub open spec fn network_json(value: NetworkConfig) -> JsonView {
    JsonView::Object(
        seq![
            ("crossCluster"@, JsonView::Bool(value.cross_cluster)),
            ("dnsZone"@, optional_view(opt_text(value.dns_zone))),
        ],
    )
}

/// Renders the network settings.
pub fn network_value(value: &NetworkConfig) -> (r: Json)
    ensures
        r@ == network_json(*value),
{
    let mut object = ObjectBuilder::new();
    object.put("crossCluster", Json::Bool(value.cross_cluster));
    object.put("dnsZone", Json::optional(borrow_text(&value.dns_zone)));
    assert(object@ =~= network_json(*value)->Object_0);
    object.finish()
}

/// The network settings as a value, or null.
pub open spec fn optional_network_json(value: Option<NetworkConfig>) -> JsonView {
    match value {
        Some(v) => network_json(v),
        None => JsonView::Null,
    }
}

fn optional_network_value(value: &Option<NetworkConfig>) -> (r: Json)
    ensures
        r@ == optional_network_json(*value),
{
    match value {
        Some(v) => network_value(v),
        None => Json::Null,
    }
}

/// The certificate settings as a value.
pub open spec fn certificates_json(value: CertificateConfig) -> JsonView {
    JsonView::Object(
        seq![
            ("enabled"@, JsonView::Bool(value.enabled)),
        ],
    )
}

/// Renders the certificate settings.
pub fn certificates_value(value: &CertificateConfig) -> (r: Json)
    ensures
        r@ == certificates_json(*value),
{
    let mut object = ObjectBuilder::new();
    object.put("enabled", Json::Bool(value.enabled));
    assert(object@ =~= certificates_json(*value)->Object_0);
    object.finish()
}

/// The certificate settings as a value, or null.
pub open spec fn optional_certificates_json(value: Option<CertificateConfig>) -> JsonView {
    match value {
        Some(v) => certificates_json(v),
        None => JsonView::Null,
    }
}

fn optional_certificates_value(value: &Option<CertificateConfig>) -> (r: Json)
    ensures
        r@ == optional_certificates_json(*value),
{
    match value {
        Some(v) => certificates_value(v),
        None => Json::Null,
    }
}

/// An environment as a value, with the given stacks.
pub open spec fn spec_json(spec: EnvironmentSpec, stacks: Seq<(Seq<char>, StackSpec)>) -> JsonView {
    JsonView::Object(
        seq![
            ("certificates"@, optional_certificates_json(spec.certificates)),
            ("clusters"@, cluster_list_json(spec.clusters@)),
            ("network"@, optional_network_json(spec.network)),
            ("runtime"@, runtime_json(spec.runtime)),
            ("services"@, service_list_json(spec.services@)),
            ("stacks"@, JsonView::Object(stacks_json(stacks))),
        ],
    )
}

/// A configuration as a value, with the given stacks.
pub open spec fn config_json(
    config: ForgeConfig,
    stacks: Seq<(Seq<char>, StackSpec)>,
) -> JsonView {
    JsonView::Object(
        seq![
            ("apiVersion"@, JsonView::String(config.api_version@)),
            ("kind"@, JsonView::String(config.kind@)),
            (
                "metadata"@,
                JsonView::Object(seq![("name"@, JsonView::String(config.metadata.name@))]),
            ),
            ("spec"@, spec_json(config.spec, stacks)),
        ],
    )
}

fn spec_value(spec: &EnvironmentSpec, stacks: &StrMap<StackSpec>) -> (r: Json)
    ensures
        r@ == spec_json(*spec, stacks@),
{
    let mut object = ObjectBuilder::new();
    object.put("certificates", optional_certificates_value(&spec.certificates));
    object.put("clusters", cluster_list_value(&spec.clusters));
    object.put("network", optional_network_value(&spec.network));
    object.put("runtime", runtime_value(&spec.runtime));
    object.put("services", service_list_value(&spec.services));
    object.put("stacks", stacks_value(stacks));
    assert(object@ =~= spec_json(*spec, stacks@)->Object_0);
    object.finish()
}

/// Renders a configuration, with the given stacks.
pub fn config_value(config: &ForgeConfig, stacks: &StrMap<StackSpec>) -> (r: Json)
    ensures
        r@ == config_json(*config, stacks@),
{
    let mut metadata = ObjectBuilder::new();
    metadata.put("name", Json::text(&config.metadata.name));
    assert(metadata@ =~= seq![("name"@, JsonView::String(config.metadata.name@))]);
    let mut object = ObjectBuilder::new();
    object.put("apiVersion", Json::text(&config.api_version));
    object.put("kind", Json::text(&config.kind));
    object.put("metadata", metadata.finish());
    object.put("spec", spec_value(&config.spec, stacks));
    assert(object@ =~= config_json(*config, stacks@)->Object_0);
    object.finish()
}

} // verus!
