//! The environment configuration.

pub mod document;
pub mod validate;

use vstd::prelude::*;
use crate::json::Json;
use crate::strmap::StrMap;

verus! {

/// The schema version that a configuration declares.
pub const API_VERSION: &'static str = "forge.praxis.dev/v1alpha1";

/// The kind that a configuration declares.
pub const KIND: &'static str = "Environment";

/// A parsed configuration file.
#[derive(Debug)]
pub struct ForgeConfig {
    /// Schema version.
    pub api_version: String,
    /// Document kind.
    pub kind: String,
    /// Identity of the environment.
    pub metadata: Metadata,
    /// What the environment consists of.
    pub spec: EnvironmentSpec,
}

/// Identity of an environment.
#[derive(Clone, Debug)]
pub struct Metadata {
    /// Environment name.
    pub name: String,
}

/// What an environment consists of.
#[derive(Debug)]
pub struct EnvironmentSpec {
    /// Container runtime settings.
    pub runtime: RuntimeConfig,
    /// Cross-cluster networking, when configured.
    pub network: Option<NetworkConfig>,
    /// KIND clusters.
    pub clusters: Vec<ClusterSpec>,
    /// Host-level container services.
    pub services: Vec<ServiceSpec>,
    /// Certificate generation, when configured.
    pub certificates: Option<CertificateConfig>,
    /// Deployment stacks by name.
    pub stacks: StrMap<StackSpec>,
}

/// Container runtime settings.
#[derive(Clone, Debug)]
pub struct RuntimeConfig {
    /// Which runtime to use.
    pub provider: RuntimeProvider,
    /// Prefix of every KIND cluster name.
    pub cluster_prefix: String,
}

impl Default for RuntimeConfig {
    fn default() -> (r: Self)
        ensures
            r.provider == RuntimeProvider::Auto,
            r.cluster_prefix@ == "forge"@,
    {
        RuntimeConfig { provider: RuntimeProvider::Auto, cluster_prefix: "forge".to_owned() }
    }
}

/// A choice of container runtime.
#[derive(Clone, Copy, Debug, PartialEq, Eq, Structural)]
pub enum RuntimeProvider {
    /// Whichever runtime is found.
    Auto,
    /// Docker.
    Docker,
    /// Podman.
    Podman,
}

/// Cross-cluster networking.
#[derive(Clone, Debug)]
pub struct NetworkConfig {
    /// Whether the clusters share one container network.
    pub cross_cluster: bool,
    /// DNS zone for discovery across clusters.
    pub dns_zone: Option<String>,
}

/// One KIND cluster.
#[derive(Debug)]
pub struct ClusterSpec {
    /// Cluster name.
    pub name: String,
    /// Node counts.
    pub nodes: NodeConfig,
    /// Host port mappings.
    pub ports: Vec<PortMapping>,
    /// Names of the stacks to apply, in order.
    pub stacks: Vec<String>,
    /// Values that stack templates can refer to.
    pub properties: StrMap<Json>,
}

/// Node counts of a cluster.
#[derive(Clone, Copy, Debug, PartialEq, Eq, Structural)]
pub struct NodeConfig {
    /// Number of control-plane nodes.
    pub control_planes: u32,
    /// Number of worker nodes.
    pub workers: u32,
}

impl Default for NodeConfig {
    fn default() -> (r: Self)
        ensures
            r.control_planes == 1,
            r.workers == 0,
    {
        NodeConfig { control_planes: 1, workers: 0 }
    }
}

/// A container port published on the host.
#[derive(Clone, Debug)]
pub struct PortMapping {
    /// Host address to publish on; every interface when unset.
    pub bind_address: Option<String>,
    /// Host port.
    pub host: u16,
    /// Container port.
    pub container: u16,
    /// Transport protocol.
    pub protocol: String,
}

/// One host-level container service.
#[derive(Clone, Debug)]
pub struct ServiceSpec {
    /// Service name.
    pub name: String,
    /// Container image.
    pub image: String,
    /// Whether `up` starts the service.
    pub auto_start: bool,
    /// Network attachment.
    pub network: NetworkMode,
    /// Names of the services to start first.
    pub depends_on: Vec<String>,
    /// Published ports.
    pub ports: Vec<PortMapping>,
    /// Mounted volumes.
    pub volumes: Vec<VolumeMount>,
    /// Environment variables.
    pub env: StrMap<String>,
    /// Container arguments.
    pub args: Vec<String>,
    /// What to do when the container exits.
    pub restart: RestartPolicy,
    /// Whether the container runs with the group of the caller.
    pub inherit_host_group: bool,
    /// Health check, when configured.
    pub health_check: Option<HealthCheck>,
}

/// How a service is attached to networks.
#[derive(Clone, Copy, Debug, PartialEq, Eq, Structural)]
pub enum NetworkMode {
    /// No shared network.
    Detached,
    /// The network of the host.
    Host,
    /// The shared environment network.
    Environment,
}

/// What to do when a service container exits.
#[derive(Clone, Copy, Debug, PartialEq, Eq, Structural)]
pub enum RestartPolicy {
    /// Leave it stopped.
    No,
    /// Restart it after a failure.
    OnFailure,
    /// Always restart it.
    Always,
    /// Restart it unless it was stopped on purpose.
    UnlessStopped,
}

/// A host directory mounted into a service container.
#[derive(Clone, Debug)]
pub struct VolumeMount {
    /// Path relative to the configuration.
    pub source: String,
    /// Absolute path in the container.
    pub target: String,
    /// Whether the mount is read-only.
    pub read_only: bool,
}

/// How the health of a service is probed.
#[derive(Clone, Debug)]
pub struct HealthCheck {
    /// Kind of probe.
    pub check_type: HealthCheckType,
    /// Container port to probe.
    pub port: u16,
    /// Time between probes.
    pub interval: String,
    /// Time allowed for one probe.
    pub timeout: String,
    /// Number of probes before giving up.
    pub retries: u32,
}

/// Kinds of health probe.
#[derive(Clone, Copy, Debug, PartialEq, Eq, Structural)]
pub enum HealthCheckType {
    /// A TCP connection.
    Tcp,
}

/// Certificate generation.
#[derive(Clone, Copy, Debug, PartialEq, Eq, Structural)]
pub struct CertificateConfig {
    /// Whether certificates are generated.
    pub enabled: bool,
}

/// A deployment stack.
#[derive(Debug)]
pub struct StackSpec {
    /// What the stack is for.
    pub description: Option<String>,
    /// Steps in the order of execution.
    pub steps: Vec<StepSpec>,
}

/// One step of a deployment stack.
#[derive(Debug)]
pub enum StepSpec {
    /// Apply a remote manifest.
    Url {
        /// Where the manifest is.
        url: String,
        /// Digest that the manifest must have.
        sha256: String,
    },
    /// Apply a manifest file.
    Manifest {
        /// Path of the manifest.
        path: String,
    },
    /// Apply a kustomization.
    Kustomize {
        /// Path of the kustomization.
        path: String,
    },
    /// Install a Helm chart.
    Helm {
        /// Release name.
        release: String,
        /// Chart reference.
        chart: String,
        /// Chart version.
        version: String,
        /// Target namespace.
        namespace: Option<String>,
        /// Chart values.
        values: StrMap<Json>,
    },
    /// Create a deployment.
    Deployment {
        /// Deployment name.
        name: String,
        /// Container image.
        image: String,
        /// Number of replicas.
        replicas: u32,
        /// Target namespace.
        namespace: Option<String>,
    },
    /// Create a service.
    Service {
        /// Service name.
        name: String,
        /// Service port.
        port: u16,
        /// Target namespace.
        namespace: Option<String>,
    },
    /// Wait for a condition.
    Wait {
        /// Resource to watch.
        resource: String,
        /// Condition to wait for.
        condition: String,
        /// Longest time to wait.
        timeout: String,
        /// Namespace of the resource.
        namespace: Option<String>,
    },
    /// Run a command.
    Exec {
        /// Program and arguments.
        command: Vec<String>,
        /// Environment variables.
        env: StrMap<String>,
    },
    /// Repeat steps for each item of a property.
    ForEach {
        /// Property that holds the items.
        property: String,
        /// Steps to repeat.
        steps: Vec<StepSpec>,
    },
    /// Allocate a MetalLB address pool.
    MetallbAutoPool {
        /// Pool name.
        name: String,
    },
    /// Forward a DNS zone.
    CoreDnsForward {
        /// Zone to forward.
        zone: String,
        /// Servers to forward to.
        upstreams: Vec<String>,
    },
    /// Record a value read from a resource.
    Capture {
        /// Resource to read.
        resource: String,
        /// Namespace of the resource.
        namespace: Option<String>,
        /// Where the value is in the resource.
        jsonpath: String,
        /// Name to record the value under.
        key: String,
        /// Longest time to wait for a value.
        timeout: String,
        /// Time between attempts.
        interval: String,
    },
    /// Render a manifest template and apply it.
    TemplateManifest {
        /// Path of the template.
        path: String,
    },
    /// Render a template into a file.
    TemplateFile {
        /// Path of the template.
        source: String,
        /// Path of the rendered file.
        target: String,
    },
}

} // verus!
