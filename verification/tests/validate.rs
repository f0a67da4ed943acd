use forge::config::validate::validate;
use forge::config::{
    CertificateConfig, ClusterSpec, EnvironmentSpec, ForgeConfig, HealthCheck, HealthCheckType, Metadata,
    NetworkConfig, NetworkMode, NodeConfig, PortMapping, RestartPolicy, RuntimeConfig, RuntimeProvider, ServiceSpec,
    StackSpec, StepSpec, VolumeMount, API_VERSION, KIND,
};
use forge::json::Json;
use forge::strmap::StrMap;

/// Build a map from its entries.
fn map_of<V>(entries: Vec<(String, V)>) -> StrMap<V> {
    let mut map = StrMap::new();
    for (key, value) in entries {
        map.insert(key, value);
    }
    map
}

/// Build a minimal valid config for test modification.
fn base_config() -> ForgeConfig {
    ForgeConfig {
        api_version: API_VERSION.to_owned(),
        kind: KIND.to_owned(),
        metadata: Metadata {
            name: "test".to_owned(),
        },
        spec: EnvironmentSpec {
            runtime: RuntimeConfig::default(),
            network: None,
            clusters: Vec::new(),
            services: Vec::new(),
            certificates: None,
            stacks: StrMap::new(),
        },
    }
}

/// Build a minimal valid service for testing.
fn test_service(name: &str) -> ServiceSpec {
    ServiceSpec {
        name: name.to_owned(),
        image: "example/svc:v1".to_owned(),
        auto_start: true,
        network: NetworkMode::Detached,
        depends_on: Vec::new(),
        ports: Vec::new(),
        volumes: Vec::new(),
        env: StrMap::new(),
        args: Vec::new(),
        restart: RestartPolicy::No,
        inherit_host_group: false,
        health_check: None,
    }
}

/// Build a service with one custom port mapping.
fn test_service_with_port(port: PortMapping) -> ServiceSpec {
    let mut svc = test_service("svc");
    svc.ports = vec![port];
    svc
}

#[test]
fn valid_minimal_config_passes() {
    let config = base_config();
    validate(&config).unwrap();
}

#[test]
fn wrong_api_version_rejected() {
    let mut config = base_config();
    config.api_version = "v2".to_owned();
    let Err(err) = validate(&config) else {
        panic!("expected a validation error");
    };
    let msg = err.to_string();
    assert!(msg.contains("apiVersion"), "expected apiVersion error, got: {msg}");
}

#[test]
fn validate_wrong_kind_rejected() {
    let mut config = base_config();
    config.kind = "Cluster".to_owned();
    let Err(err) = validate(&config) else {
        panic!("expected a validation error");
    };
    let msg = err.to_string();
    assert!(msg.contains("kind"), "expected kind error, got: {msg}");
}

#[test]
fn empty_name_rejected() {
    let mut config = base_config();
    config.metadata.name = String::new();
    let Err(err) = validate(&config) else {
        panic!("expected a validation error");
    };
    let msg = err.to_string();
    assert!(msg.contains("empty"), "expected empty name error, got: {msg}");
}

#[test]
fn non_dns_name_rejected() {
    let mut config = base_config();
    config.metadata.name = "Not_Valid".to_owned();
    let Err(err) = validate(&config) else {
        panic!("expected a validation error");
    };
    let msg = err.to_string();
    assert!(msg.contains("invalid characters"), "expected DNS error, got: {msg}");
}

#[test]
fn leading_hyphen_name_rejected() {
    let mut config = base_config();
    config.metadata.name = "-bad".to_owned();
    let Err(err) = validate(&config) else {
        panic!("expected a validation error");
    };
    let msg = err.to_string();
    assert!(msg.contains("hyphen"), "expected hyphen error, got: {msg}");
}

#[test]
fn empty_cluster_prefix_rejected() {
    let mut config = base_config();
    config.spec.runtime.cluster_prefix = String::new();
    let Err(err) = validate(&config) else {
        panic!("expected a validation error");
    };
    let msg = err.to_string();
    assert!(
        msg.contains("clusterPrefix"),
        "expected clusterPrefix error, got: {msg}"
    );
}

#[test]
fn invalid_cluster_prefix_rejected() {
    for bad in ["Forge", "with space", "with/slash", "-lead", "x".repeat(64).as_str()] {
        let mut config = base_config();
        config.spec.runtime.cluster_prefix = bad.to_owned();
        assert!(validate(&config).is_err(), "should reject clusterPrefix {bad:?}");
    }
}

#[test]
fn custom_cluster_prefix_passes() {
    let mut config = base_config();
    config.spec.runtime.cluster_prefix = "dev-env2".to_owned();
    config.spec.clusters = vec![ClusterSpec {
        name: "hub".to_owned(),
        nodes: NodeConfig::default(),
        ports: Vec::new(),
        stacks: Vec::new(),
        properties: StrMap::new(),
    }];
    validate(&config).unwrap();
}

#[test]
fn duplicate_cluster_names_rejected() {
    let mut config = base_config();
    let cluster = || ClusterSpec {
        name: "dupe".to_owned(),
        nodes: NodeConfig::default(),
        ports: Vec::new(),
        stacks: Vec::new(),
        properties: StrMap::new(),
    };
    config.spec.clusters = vec![cluster(), cluster()];
    let Err(err) = validate(&config) else {
        panic!("expected a validation error");
    };
    let msg = err.to_string();
    assert!(
        msg.contains("duplicate cluster"),
        "expected duplicate error, got: {msg}"
    );
}

#[test]
fn cluster_referencing_missing_stack_rejected() {
    let mut config = base_config();
    config.spec.clusters = vec![ClusterSpec {
        name: "c1".to_owned(),
        nodes: NodeConfig::default(),
        ports: Vec::new(),
        stacks: vec!["nonexistent".to_owned()],
        properties: StrMap::new(),
    }];
    let Err(err) = validate(&config) else {
        panic!("expected a validation error");
    };
    let msg = err.to_string();
    assert!(
        msg.contains("unknown stack"),
        "expected missing stack error, got: {msg}"
    );
}

#[test]
fn cluster_referencing_stack_twice_rejected() {
    let mut config = base_config();
    config.spec.stacks = map_of(vec![(
        "base".to_owned(),
        StackSpec {
            description: None,
            steps: Vec::new(),
        },
    )]);
    config.spec.clusters = vec![ClusterSpec {
        name: "c1".to_owned(),
        nodes: NodeConfig::default(),
        ports: Vec::new(),
        stacks: vec!["base".to_owned(), "base".to_owned()],
        properties: StrMap::new(),
    }];
    let Err(err) = validate(&config) else {
        panic!("expected a validation error");
    };
    let msg = err.to_string();
    assert!(
        msg.contains("referenced more than once"),
        "expected duplicate stack ref error, got: {msg}"
    );
}

#[test]
fn template_looking_values_rejected() {
    let mut config = base_config();
    config.spec.clusters = vec![ClusterSpec {
        name: "c1".to_owned(),
        nodes: NodeConfig::default(),
        ports: Vec::new(),
        stacks: Vec::new(),
        properties: map_of(vec![(
            "model".to_owned(),
            Json::String("{{ .Property.model }}".to_owned()),
        )]),
    }];
    let Err(err) = validate(&config) else {
        panic!("expected a validation error");
    };
    let msg = err.to_string();
    assert!(msg.contains("template syntax"), "expected template error, got: {msg}");
}

#[test]
fn templates_in_stack_steps_pass_validation() {
    let mut config = base_config();
    config.spec.stacks = map_of(vec![(
        "base".to_owned(),
        StackSpec {
            description: None,
            steps: vec![StepSpec::Manifest {
                path: "{{ cluster.name }}/manifests".to_owned(),
            }],
        },
    )]);
    config.spec.clusters = vec![ClusterSpec {
        name: "hub".to_owned(),
        nodes: NodeConfig::default(),
        ports: Vec::new(),
        stacks: vec!["base".to_owned()],
        properties: StrMap::new(),
    }];
    assert!(validate(&config).is_ok(), "templates in stack steps should be allowed");
}

#[test]
fn templates_outside_stacks_still_rejected() {
    let mut config = base_config();
    config.spec.services = vec![{
        let mut svc = test_service("bad");
        svc.image = "{{ cluster.name }}/img:v1".to_owned();
        svc
    }];
    let Err(err) = validate(&config) else {
        panic!("expected a validation error");
    };
    let msg = err.to_string();
    assert!(
        msg.contains("template syntax"),
        "templates in service image should be rejected: {msg}"
    );
}

#[test]
fn split_braces_across_fields_pass() {
    let mut config = base_config();
    let mut svc_a = test_service("first");
    svc_a.args = vec!["prefix{{open".to_owned()];
    let mut svc_b = test_service("second");
    svc_b.args = vec!["close}}suffix".to_owned()];
    config.spec.services = vec![svc_a, svc_b];
    assert!(
        validate(&config).is_ok(),
        "'{{{{' and '}}}}' in unrelated fields form no template expression"
    );
}

#[test]
fn reversed_braces_in_one_value_pass() {
    let mut config = base_config();
    let mut svc = test_service("web");
    svc.args = vec!["close}}then{{open".to_owned()];
    config.spec.services = vec![svc];
    assert!(
        validate(&config).is_ok(),
        "'}}}}' before '{{{{' in one value forms no template expression"
    );
}

#[test]
fn template_error_reports_offending_path() {
    let mut config = base_config();
    let mut svc = test_service("web");
    svc.args = vec!["{{ cluster.name }}".to_owned()];
    config.spec.services = vec![svc];
    let Err(err) = validate(&config) else {
        panic!("expected a validation error");
    };
    let msg = err.to_string();
    assert!(
        msg.contains("spec.services[0].args[0]"),
        "expected offending path in error, got: {msg}"
    );
}

#[test]
fn zero_control_planes_rejected() {
    let mut config = base_config();
    config.spec.clusters = vec![ClusterSpec {
        name: "c1".to_owned(),
        nodes: NodeConfig {
            control_planes: 0,
            workers: 1,
        },
        ports: Vec::new(),
        stacks: Vec::new(),
        properties: StrMap::new(),
    }];
    let Err(err) = validate(&config) else {
        panic!("expected a validation error");
    };
    let msg = err.to_string();
    assert!(
        msg.contains("controlPlanes"),
        "expected control-plane count error, got: {msg}"
    );
}

#[test]
fn excessive_control_planes_rejected() {
    let mut config = base_config();
    config.spec.clusters = vec![ClusterSpec {
        name: "big".to_owned(),
        nodes: NodeConfig {
            control_planes: 10,
            workers: 0,
        },
        ports: Vec::new(),
        stacks: Vec::new(),
        properties: StrMap::new(),
    }];
    let Err(err) = validate(&config) else {
        panic!("expected a validation error");
    };
    let msg = err.to_string();
    assert!(
        msg.contains("big") && msg.contains("controlPlanes"),
        "expected named control-plane bound error, got: {msg}"
    );
}

#[test]
fn excessive_workers_rejected() {
    let mut config = base_config();
    config.spec.clusters = vec![ClusterSpec {
        name: "big".to_owned(),
        nodes: NodeConfig {
            control_planes: 1,
            workers: u32::MAX,
        },
        ports: Vec::new(),
        stacks: Vec::new(),
        properties: StrMap::new(),
    }];
    let Err(err) = validate(&config) else {
        panic!("expected a validation error");
    };
    let msg = err.to_string();
    assert!(
        msg.contains("big") && msg.contains("workers"),
        "expected named worker bound error, got: {msg}"
    );
}

#[test]
fn maximum_node_counts_pass() {
    let mut config = base_config();
    config.spec.clusters = vec![ClusterSpec {
        name: "big".to_owned(),
        nodes: NodeConfig {
            control_planes: 9,
            workers: 100,
        },
        ports: Vec::new(),
        stacks: Vec::new(),
        properties: StrMap::new(),
    }];
    validate(&config).unwrap();
}

#[test]
fn cluster_port_zero_host_rejected() {
    let mut config = base_config();
    config.spec.clusters.push(ClusterSpec {
        name: "test".to_owned(),
        nodes: NodeConfig::default(),
        ports: vec![PortMapping {
            bind_address: None,
            host: 0,
            container: 30080,
            protocol: "tcp".to_owned(),
        }],
        stacks: Vec::new(),
        properties: StrMap::new(),
    });
    let result = validate(&config);
    assert!(result.is_err(), "zero host port should be rejected");
}

#[test]
fn cluster_duplicate_host_port_rejected() {
    let mut config = base_config();
    config.spec.clusters.push(ClusterSpec {
        name: "test".to_owned(),
        nodes: NodeConfig::default(),
        ports: vec![
            PortMapping {
                bind_address: None,
                host: 8080,
                container: 30080,
                protocol: "tcp".to_owned(),
            },
            PortMapping {
                bind_address: None,
                host: 8080,
                container: 30081,
                protocol: "tcp".to_owned(),
            },
        ],
        stacks: Vec::new(),
        properties: StrMap::new(),
    });
    let Err(err) = validate(&config) else {
        panic!("expected a validation error");
    };
    let msg = err.to_string();
    assert!(
        msg.contains("duplicate host port"),
        "expected duplicate port error, got: {msg}"
    );
}

/// Two clusters claiming the same host port collide on the host, so this
/// must fail at validation rather than at `kind create cluster` time.
#[test]
fn host_port_claimed_by_two_clusters_rejected() {
    let mut config = base_config();
    for name in ["alpha", "beta"] {
        config.spec.clusters.push(ClusterSpec {
            name: name.to_owned(),
            nodes: NodeConfig::default(),
            ports: vec![PortMapping {
                bind_address: None,
                host: 8080,
                container: 30080,
                protocol: "tcp".to_owned(),
            }],
            stacks: Vec::new(),
            properties: StrMap::new(),
        });
    }
    let Err(err) = validate(&config) else {
        panic!("expected a validation error");
    };
    let msg = err.to_string();
    assert!(
        msg.contains("already mapped by cluster"),
        "expected cross-cluster port conflict, got: {msg}"
    );
}

/// Distinct host ports across clusters are the normal case and must pass.
#[test]
fn distinct_host_ports_across_clusters_pass() {
    let mut config = base_config();
    for (name, host) in [("alpha", 8080_u16), ("beta", 8081_u16)] {
        config.spec.clusters.push(ClusterSpec {
            name: name.to_owned(),
            nodes: NodeConfig::default(),
            ports: vec![PortMapping {
                bind_address: None,
                host,
                container: 30080,
                protocol: "tcp".to_owned(),
            }],
            stacks: Vec::new(),
            properties: StrMap::new(),
        });
    }
    validate(&config).unwrap();
}

/// Build a cluster with the given port mappings.
fn test_cluster_with_ports(name: &str, ports: Vec<PortMapping>) -> ClusterSpec {
    ClusterSpec {
        name: name.to_owned(),
        nodes: NodeConfig::default(),
        ports,
        stacks: Vec::new(),
        properties: StrMap::new(),
    }
}

/// Build a cluster port mapping, defaulting container port and bind address.
fn cluster_port(host: u16, protocol: &str, bind_address: Option<&str>) -> PortMapping {
    PortMapping {
        bind_address: bind_address.map(str::to_owned),
        host,
        container: 30080,
        protocol: protocol.to_owned(),
    }
}

/// A cluster mapping and a service mapping are published on the same host
/// by the same runtime, so one binding cannot serve both. Checked against
/// one registry, or this passes validation and fails during `forge up`.
#[test]
fn cluster_and_service_claiming_one_binding_rejected() {
    let mut config = base_config();
    config
        .spec
        .clusters
        .push(test_cluster_with_ports("alpha", vec![cluster_port(8080, "tcp", None)]));
    config
        .spec
        .services
        .push(test_service_with_port(cluster_port(8080, "tcp", None)));
    let Err(err) = validate(&config) else {
        panic!("expected a validation error");
    };
    let msg = err.to_string();
    assert!(
        msg.contains("already mapped by cluster") && msg.contains("service"),
        "expected a cluster/service binding conflict, got: {msg}"
    );
}

/// TCP and UDP on one port are distinct bindings that Docker and KIND both
/// accept, so keying conflicts on the port number alone rejects valid
/// configurations.
#[test]
fn cluster_tcp_and_udp_on_one_port_pass() {
    let mut config = base_config();
    config.spec.clusters.push(test_cluster_with_ports(
        "alpha",
        vec![cluster_port(8080, "tcp", None), cluster_port(8080, "udp", None)],
    ));
    validate(&config).unwrap();
}

/// The same split holds across a cluster and a service.
#[test]
fn cluster_udp_and_service_tcp_on_one_port_pass() {
    let mut config = base_config();
    config
        .spec
        .clusters
        .push(test_cluster_with_ports("alpha", vec![cluster_port(8080, "udp", None)]));
    config
        .spec
        .services
        .push(test_service_with_port(cluster_port(8080, "tcp", None)));
    validate(&config).unwrap();
}

/// Protocol is compared case-insensitively: KIND upper-cases the value into
/// the generated cluster config, so `TCP` and `tcp` are one binding.
#[test]
fn cluster_port_protocol_case_insensitive_conflict() {
    let mut config = base_config();
    config.spec.clusters.push(test_cluster_with_ports(
        "alpha",
        vec![cluster_port(8080, "TCP", None), cluster_port(8080, "tcp", None)],
    ));
    let Err(err) = validate(&config) else {
        panic!("expected a validation error");
    };
    let msg = err.to_string();
    assert!(
        msg.contains("duplicate host port binding"),
        "expected a duplicate binding error, got: {msg}"
    );
}

/// Two specific addresses on one port do not overlap.
#[test]
fn cluster_and_service_on_distinct_bind_addresses_pass() {
    let mut config = base_config();
    config.spec.clusters.push(test_cluster_with_ports(
        "alpha",
        vec![cluster_port(8080, "tcp", Some("127.0.0.1"))],
    ));
    config
        .spec
        .services
        .push(test_service_with_port(cluster_port(8080, "tcp", Some("127.0.0.2"))));
    validate(&config).unwrap();
}

/// A wildcard bind publishes on every interface, so it overlaps a specific
/// address on the same port and protocol even across a cluster and a
/// service.
#[test]
fn wildcard_service_conflicts_with_specific_cluster_binding() {
    let mut config = base_config();
    config.spec.clusters.push(test_cluster_with_ports(
        "alpha",
        vec![cluster_port(8080, "tcp", Some("127.0.0.1"))],
    ));
    config
        .spec
        .services
        .push(test_service_with_port(cluster_port(8080, "tcp", None)));
    let Err(err) = validate(&config) else {
        panic!("expected a validation error");
    };
    let msg = err.to_string();
    assert!(
        msg.contains("already mapped by cluster"),
        "expected a wildcard/specific overlap, got: {msg}"
    );
}

#[test]
fn cluster_port_invalid_protocol_rejected() {
    let mut config = base_config();
    config.spec.clusters.push(ClusterSpec {
        name: "test".to_owned(),
        nodes: NodeConfig::default(),
        ports: vec![PortMapping {
            bind_address: None,
            host: 8080,
            container: 30080,
            protocol: "http".to_owned(),
        }],
        stacks: Vec::new(),
        properties: StrMap::new(),
    });
    let Err(err) = validate(&config) else {
        panic!("expected a validation error");
    };
    let msg = err.to_string();
    assert!(
        msg.contains("unsupported port protocol"),
        "expected protocol error, got: {msg}"
    );
}

/// KIND accepts UDP and SCTP for extraPortMappings even though service
/// ports are TCP-only, so neither may be rejected here.
#[test]
fn cluster_port_udp_and_sctp_accepted() {
    for protocol in ["udp", "SCTP"] {
        let mut config = base_config();
        config.spec.clusters.push(ClusterSpec {
            name: "test".to_owned(),
            nodes: NodeConfig::default(),
            ports: vec![PortMapping {
                bind_address: None,
                host: 8080,
                container: 30080,
                protocol: protocol.to_owned(),
            }],
            stacks: Vec::new(),
            properties: StrMap::new(),
        });
        validate(&config).unwrap();
    }
}

#[test]
fn cluster_port_invalid_bind_address_rejected() {
    let mut config = base_config();
    config.spec.clusters.push(ClusterSpec {
        name: "test".to_owned(),
        nodes: NodeConfig::default(),
        ports: vec![PortMapping {
            bind_address: Some("not-an-ip".to_owned()),
            host: 8080,
            container: 30080,
            protocol: "tcp".to_owned(),
        }],
        stacks: Vec::new(),
        properties: StrMap::new(),
    });
    let Err(err) = validate(&config) else {
        panic!("expected a validation error");
    };
    let msg = err.to_string();
    assert!(msg.contains("bind address"), "expected bind address error, got: {msg}");
}

#[test]
fn cluster_port_valid_bind_address_passes() {
    let mut config = base_config();
    config.spec.clusters.push(ClusterSpec {
        name: "test".to_owned(),
        nodes: NodeConfig::default(),
        ports: vec![PortMapping {
            bind_address: Some("127.0.0.1".to_owned()),
            host: 8080,
            container: 30080,
            protocol: "tcp".to_owned(),
        }],
        stacks: Vec::new(),
        properties: StrMap::new(),
    });
    validate(&config).unwrap();
}

#[test]
fn invalid_service_protocol_rejected() {
    let mut config = base_config();
    config.spec.services = vec![test_service_with_port(PortMapping {
        bind_address: None,
        host: 8080,
        container: 8080,
        protocol: "sctp".to_owned(),
    })];
    let Err(err) = validate(&config) else {
        panic!("expected a validation error");
    };
    let msg = err.to_string();
    assert!(msg.contains("protocol"), "expected protocol error, got: {msg}");
}

#[test]
fn non_https_remote_url_rejected() {
    let mut config = base_config();
    config.spec.stacks.insert(
        "base".to_owned(),
        StackSpec {
            description: None,
            steps: vec![StepSpec::Url {
                url: "http://example.invalid/install.yaml".to_owned(),
                sha256: "a".repeat(64),
            }],
        },
    );
    let Err(err) = validate(&config) else {
        panic!("expected a validation error");
    };
    let msg = err.to_string();
    assert!(msg.contains("https"), "expected https error, got: {msg}");
}

#[test]
fn templated_sha256_accepted() {
    let mut config = base_config();
    config.spec.stacks.insert(
        "base".to_owned(),
        StackSpec {
            description: None,
            steps: vec![StepSpec::Url {
                url: "https://example.invalid/install.yaml".to_owned(),
                sha256: "{{ cluster.properties.artifactSha256 }}".to_owned(),
            }],
        },
    );
    assert!(
        validate(&config).is_ok(),
        "full-field sha256 templates must be allowed at validate time"
    );
}

#[test]
fn invalid_sha256_rejected() {
    let mut config = base_config();
    config.spec.stacks.insert(
        "base".to_owned(),
        StackSpec {
            description: None,
            steps: vec![StepSpec::Url {
                url: "https://example.invalid/install.yaml".to_owned(),
                sha256: "not-a-digest".to_owned(),
            }],
        },
    );
    let Err(err) = validate(&config) else {
        panic!("expected a validation error");
    };
    let msg = err.to_string();
    assert!(msg.contains("SHA-256"), "expected digest error, got: {msg}");
}

#[test]
fn invalid_exec_env_key_rejected() {
    let mut config = base_config();
    config.spec.stacks.insert(
        "base".to_owned(),
        StackSpec {
            description: None,
            steps: vec![StepSpec::Exec {
                command: vec!["true".to_owned()],
                env: map_of(vec![("BAD-KEY".to_owned(), "x".to_owned())]),
            }],
        },
    );
    let Err(err) = validate(&config) else {
        panic!("expected a validation error");
    };
    let msg = err.to_string();
    assert!(msg.contains("env key"), "expected env key error, got: {msg}");
}

#[test]
fn empty_exec_command_rejected() {
    let mut config = base_config();
    config.spec.stacks.insert(
        "base".to_owned(),
        StackSpec {
            description: None,
            steps: vec![StepSpec::Exec {
                command: Vec::new(),
                env: StrMap::new(),
            }],
        },
    );
    let Err(err) = validate(&config) else {
        panic!("expected a validation error");
    };
    let msg = err.to_string();
    assert!(msg.contains("exec command"), "expected exec error, got: {msg}");
}

#[test]
fn stack_service_zero_port_rejected() {
    let mut config = base_config();
    config.spec.stacks.insert(
        "base".to_owned(),
        StackSpec {
            description: None,
            steps: vec![StepSpec::Service {
                name: "web".to_owned(),
                port: 0,
                namespace: None,
            }],
        },
    );
    let Err(err) = validate(&config) else {
        panic!("expected a validation error");
    };
    let msg = err.to_string();
    assert!(msg.contains("port"), "expected service port error, got: {msg}");
}

#[test]
fn stack_wait_timeout_format_rejected() {
    let mut config = base_config();
    config.spec.stacks.insert(
        "base".to_owned(),
        StackSpec {
            description: None,
            steps: vec![StepSpec::Wait {
                resource: "deployment/web".to_owned(),
                condition: "available".to_owned(),
                timeout: "soon".to_owned(),
                namespace: None,
            }],
        },
    );
    let Err(err) = validate(&config) else {
        panic!("expected a validation error");
    };
    let msg = err.to_string();
    assert!(msg.contains("timeout"), "expected wait timeout error, got: {msg}");
}

#[test]
fn stack_helm_chart_starting_with_dash_rejected() {
    let mut config = base_config();
    config.spec.stacks.insert(
        "base".to_owned(),
        StackSpec {
            description: None,
            steps: vec![StepSpec::Helm {
                release: "web".to_owned(),
                // helm parses flags interspersed with positionals, so this
                // would run an arbitrary program at render time.
                chart: "--post-renderer=/tmp/evil.sh".to_owned(),
                version: "1.0.0".to_owned(),
                namespace: None,
                values: StrMap::new(),
            }],
        },
    );
    let Err(err) = validate(&config) else {
        panic!("expected a validation error");
    };
    let msg = err.to_string();
    assert!(
        msg.contains("must not start with '-'"),
        "expected helm chart dash rejection, got: {msg}"
    );
}

#[test]
fn stack_wait_resource_starting_with_dash_rejected() {
    let mut config = base_config();
    config.spec.stacks.insert(
        "base".to_owned(),
        StackSpec {
            description: None,
            steps: vec![StepSpec::Wait {
                resource: "--kubeconfig=/tmp/evil".to_owned(),
                condition: "available".to_owned(),
                timeout: "30s".to_owned(),
                namespace: None,
            }],
        },
    );
    let Err(err) = validate(&config) else {
        panic!("expected a validation error");
    };
    let msg = err.to_string();
    assert!(
        msg.contains("must not start with '-'"),
        "expected wait resource dash rejection, got: {msg}"
    );
}

#[test]
fn network_cross_cluster_passes_validation() {
    let mut config = base_config();
    config.spec.network = Some(NetworkConfig {
        cross_cluster: true,
        dns_zone: None,
    });
    validate(&config).unwrap();
}

#[test]
fn network_config_without_cross_cluster_passes() {
    let mut config = base_config();
    config.spec.network = Some(NetworkConfig {
        cross_cluster: false,
        dns_zone: None,
    });
    validate(&config).unwrap();
}

#[test]
fn service_with_full_spec_passes() {
    let mut config = base_config();
    let mut svc = test_service("web");
    svc.ports = vec![PortMapping {
        bind_address: Some("127.0.0.1".to_owned()),
        host: 8080,
        container: 80,
        protocol: "tcp".to_owned(),
    }];
    svc.volumes = vec![VolumeMount {
        source: "data".to_owned(),
        target: "/data".to_owned(),
        read_only: false,
    }];
    svc.env = map_of(vec![("HOME".to_owned(), "/root".to_owned())]);
    svc.args = vec!["--port".to_owned(), "80".to_owned()];
    svc.health_check = Some(HealthCheck {
        check_type: HealthCheckType::Tcp,
        port: 80,
        interval: "2s".to_owned(),
        timeout: "1s".to_owned(),
        retries: 3,
    });
    config.spec.services = vec![svc];
    validate(&config).unwrap();
}

#[test]
fn service_self_dependency_rejected() {
    let mut config = base_config();
    let mut svc = test_service("web");
    svc.depends_on = vec!["web".to_owned()];
    config.spec.services = vec![svc];
    let Err(err) = validate(&config) else {
        panic!("expected a validation error");
    };
    let msg = err.to_string();
    assert!(msg.contains("depends on itself"), "expected self-dep error, got: {msg}");
}

#[test]
fn service_unknown_dependency_rejected() {
    let mut config = base_config();
    let mut svc = test_service("web");
    svc.depends_on = vec!["nonexistent".to_owned()];
    config.spec.services = vec![svc];
    let Err(err) = validate(&config) else {
        panic!("expected a validation error");
    };
    let msg = err.to_string();
    assert!(
        msg.contains("unknown service"),
        "expected unknown dep error, got: {msg}"
    );
}

#[test]
fn service_dependency_cycle_rejected() {
    let mut config = base_config();
    let mut svc_a = test_service("a");
    svc_a.depends_on = vec!["b".to_owned()];
    let mut svc_b = test_service("b");
    svc_b.depends_on = vec!["a".to_owned()];
    config.spec.services = vec![svc_a, svc_b];
    let Err(err) = validate(&config) else {
        panic!("expected a validation error");
    };
    let msg = err.to_string();
    assert!(msg.contains("cycle"), "expected cycle error, got: {msg}");
}

#[test]
fn auto_start_service_cannot_depend_on_non_auto_start_service() {
    let mut config = base_config();
    let mut sync = test_service("sync");
    sync.auto_start = false;
    let mut edge = test_service("edge");
    edge.depends_on = vec!["sync".to_owned()];
    config.spec.services = vec![sync, edge];
    let Err(err) = validate(&config) else {
        panic!("expected a validation error");
    };
    let msg = err.to_string();
    assert!(
        msg.contains("auto-started service depends on non-auto-start service"),
        "expected auto-start dependency error, got: {msg}"
    );
}

#[test]
fn non_auto_start_service_may_depend_on_non_auto_start_service() {
    let mut config = base_config();
    let mut sync = test_service("sync");
    sync.auto_start = false;
    let mut edge = test_service("edge");
    edge.auto_start = false;
    edge.depends_on = vec!["sync".to_owned()];
    config.spec.services = vec![sync, edge];
    validate(&config).unwrap();
}

#[test]
fn service_bind_address_invalid_rejected() {
    let mut config = base_config();
    config.spec.services = vec![test_service_with_port(PortMapping {
        bind_address: Some("not-an-ip".to_owned()),
        host: 8080,
        container: 8080,
        protocol: "tcp".to_owned(),
    })];
    let Err(err) = validate(&config) else {
        panic!("expected a validation error");
    };
    let msg = err.to_string();
    assert!(msg.contains("bind address"), "expected bind address error, got: {msg}");
}

#[test]
fn service_bind_address_valid_passes() {
    let mut config = base_config();
    config.spec.services = vec![test_service_with_port(PortMapping {
        bind_address: Some("127.0.0.1".to_owned()),
        host: 8080,
        container: 8080,
        protocol: "tcp".to_owned(),
    })];
    validate(&config).unwrap();
}

#[test]
fn service_port_zero_rejected() {
    let mut config = base_config();
    config.spec.services = vec![test_service_with_port(PortMapping {
        bind_address: None,
        host: 0,
        container: 8080,
        protocol: "tcp".to_owned(),
    })];
    let Err(err) = validate(&config) else {
        panic!("expected a validation error");
    };
    let msg = err.to_string();
    assert!(
        msg.contains("port must not be zero"),
        "expected port zero error, got: {msg}"
    );
}

#[test]
fn service_image_starting_with_dash_rejected() {
    let mut config = base_config();
    let mut svc = test_service_with_port(PortMapping {
        bind_address: None,
        host: 8080,
        container: 8080,
        protocol: "tcp".to_owned(),
    });
    svc.image = "--volume=/:/host".to_owned();
    config.spec.services = vec![svc];
    let Err(err) = validate(&config) else {
        panic!("expected a validation error");
    };
    let msg = err.to_string();
    assert!(
        msg.contains("must not start with '-'"),
        "expected leading-dash image rejection, got: {msg}"
    );
}

#[test]
fn service_duplicate_host_port_rejected() {
    let mut config = base_config();
    let svc_a = test_service_with_port(PortMapping {
        bind_address: None,
        host: 8080,
        container: 80,
        protocol: "tcp".to_owned(),
    });
    let mut svc_b = test_service("other");
    svc_b.ports = vec![PortMapping {
        bind_address: None,
        host: 8080,
        container: 90,
        protocol: "tcp".to_owned(),
    }];
    config.spec.services = vec![svc_a, svc_b];
    let Err(err) = validate(&config) else {
        panic!("expected a validation error");
    };
    let msg = err.to_string();
    assert!(
        msg.contains("already mapped by service") && msg.contains("8080/tcp"),
        "expected a service binding conflict naming both sides, got: {msg}"
    );
}

/// Build two single-port services with the given bind addresses on port 8080.
fn two_services_with_binds(bind_a: Option<&str>, bind_b: Option<&str>) -> ForgeConfig {
    let mut config = base_config();
    let svc_a = test_service_with_port(PortMapping {
        bind_address: bind_a.map(str::to_owned),
        host: 8080,
        container: 80,
        protocol: "tcp".to_owned(),
    });
    let mut svc_b = test_service("other");
    svc_b.ports = vec![PortMapping {
        bind_address: bind_b.map(str::to_owned),
        host: 8080,
        container: 90,
        protocol: "tcp".to_owned(),
    }];
    config.spec.services = vec![svc_a, svc_b];
    config
}

#[test]
fn unset_bind_conflicts_with_explicit_wildcard() {
    let config = two_services_with_binds(None, Some("0.0.0.0"));
    let Err(err) = validate(&config) else {
        panic!("expected a validation error");
    };
    let msg = err.to_string();
    assert!(
        msg.contains("already mapped by service") && msg.contains("8080/tcp"),
        "expected a service binding conflict naming both sides, got: {msg}"
    );
}

#[test]
fn unset_bind_conflicts_with_specific_address() {
    let config = two_services_with_binds(None, Some("127.0.0.1"));
    assert!(
        validate(&config).is_err(),
        "unset bind publishes on all interfaces and must conflict with 127.0.0.1"
    );
}

#[test]
fn same_specific_bind_conflicts() {
    let config = two_services_with_binds(Some("127.0.0.1"), Some("127.0.0.1"));
    assert!(validate(&config).is_err(), "same specific bind address must conflict");
}

#[test]
fn distinct_specific_binds_pass() {
    let config = two_services_with_binds(Some("127.0.0.1"), Some("192.168.0.10"));
    validate(&config).unwrap();
}

#[test]
fn service_volume_source_escape_rejected() {
    let mut config = base_config();
    let mut svc = test_service("web");
    svc.volumes = vec![VolumeMount {
        source: "../etc/passwd".to_owned(),
        target: "/data".to_owned(),
        read_only: false,
    }];
    config.spec.services = vec![svc];
    let Err(err) = validate(&config) else {
        panic!("expected a validation error");
    };
    let msg = err.to_string();
    assert!(msg.contains("escape"), "expected path escape error, got: {msg}");
}

#[test]
fn service_volume_target_relative_rejected() {
    let mut config = base_config();
    let mut svc = test_service("web");
    svc.volumes = vec![VolumeMount {
        source: "data".to_owned(),
        target: "relative/path".to_owned(),
        read_only: false,
    }];
    config.spec.services = vec![svc];
    let Err(err) = validate(&config) else {
        panic!("expected a validation error");
    };
    let msg = err.to_string();
    assert!(msg.contains("absolute"), "expected absolute path error, got: {msg}");
}

#[test]
fn service_with_dotforge_runtime_volume_valid() {
    let mut config = base_config();
    let mut svc = test_service("edge");
    svc.volumes = vec![VolumeMount {
        source: ".forge/runtime/edge-us-east".to_owned(),
        target: "/etc/grid".to_owned(),
        read_only: true,
    }];
    config.spec.services = vec![svc];
    validate(&config).unwrap();
}

#[test]
fn service_with_localhost_bind_address_valid() {
    let mut config = base_config();
    let mut svc = test_service("edge");
    svc.ports = vec![PortMapping {
        bind_address: Some("127.0.0.1".to_owned()),
        host: 8080,
        container: 8080,
        protocol: "tcp".to_owned(),
    }];
    config.spec.services = vec![svc];
    validate(&config).unwrap();
}

#[test]
fn service_env_key_empty_rejected() {
    let mut config = base_config();
    let mut svc = test_service("web");
    svc.env = map_of(vec![(String::new(), "val".to_owned())]);
    config.spec.services = vec![svc];
    let Err(err) = validate(&config) else {
        panic!("expected a validation error");
    };
    let msg = err.to_string();
    assert!(msg.contains("environment key"), "expected env key error, got: {msg}");
}

#[test]
fn service_env_key_invalid_chars_rejected() {
    let mut config = base_config();
    let mut svc = test_service("web");
    svc.env = map_of(vec![("MY-KEY".to_owned(), "val".to_owned())]);
    config.spec.services = vec![svc];
    let Err(err) = validate(&config) else {
        panic!("expected a validation error");
    };
    let msg = err.to_string();
    assert!(
        msg.contains("not a valid identifier"),
        "expected invalid key error, got: {msg}"
    );
}

#[test]
fn service_health_retries_zero_rejected() {
    let mut config = base_config();
    let mut svc = test_service("web");
    svc.health_check = Some(HealthCheck {
        check_type: HealthCheckType::Tcp,
        port: 80,
        interval: "2s".to_owned(),
        timeout: "1s".to_owned(),
        retries: 0,
    });
    config.spec.services = vec![svc];
    let Err(err) = validate(&config) else {
        panic!("expected a validation error");
    };
    let msg = err.to_string();
    assert!(msg.contains("retries"), "expected retries error, got: {msg}");
}

#[test]
fn service_health_bad_interval_rejected() {
    let mut config = base_config();
    let mut svc = test_service("web");
    svc.health_check = Some(HealthCheck {
        check_type: HealthCheckType::Tcp,
        port: 80,
        interval: "abc".to_owned(),
        timeout: "1s".to_owned(),
        retries: 3,
    });
    config.spec.services = vec![svc];
    let Err(err) = validate(&config) else {
        panic!("expected a validation error");
    };
    let msg = err.to_string();
    assert!(msg.contains("interval"), "expected interval error, got: {msg}");
}

#[test]
fn service_health_unpublished_port_rejected() {
    let mut config = base_config();
    let mut svc = test_service("web");
    svc.ports = vec![PortMapping {
        bind_address: Some("127.0.0.1".to_owned()),
        host: 8080,
        container: 80,
        protocol: "tcp".to_owned(),
    }];
    svc.health_check = Some(HealthCheck {
        check_type: HealthCheckType::Tcp,
        port: 81,
        interval: "2s".to_owned(),
        timeout: "1s".to_owned(),
        retries: 3,
    });
    config.spec.services = vec![svc];
    let Err(err) = validate(&config) else {
        panic!("expected a validation error");
    };
    let msg = err.to_string();
    assert!(
        msg.contains("published tcp container port"),
        "expected unpublished health port error, got: {msg}"
    );
}

#[test]
fn service_image_too_long_rejected() {
    let mut config = base_config();
    let mut svc = test_service("web");
    svc.image = "x".repeat(513);
    config.spec.services = vec![svc];
    let Err(err) = validate(&config) else {
        panic!("expected a validation error");
    };
    let msg = err.to_string();
    assert!(msg.contains("512"), "expected image length error, got: {msg}");
}

#[test]
fn service_args_too_many_rejected() {
    let mut config = base_config();
    let mut svc = test_service("web");
    svc.args = (0..129).map(|i| format!("arg{i}")).collect();
    config.spec.services = vec![svc];
    let Err(err) = validate(&config) else {
        panic!("expected a validation error");
    };
    let msg = err.to_string();
    assert!(msg.contains("128"), "expected args count error, got: {msg}");
}

#[test]
fn dns_zone_valid_passes() {
    let mut config = base_config();
    config.spec.network = Some(NetworkConfig {
        cross_cluster: true,
        dns_zone: Some("forge.test".to_owned()),
    });
    assert!(validate(&config).is_ok(), "forge.test should be a valid dns zone");
}

#[test]
fn dns_zone_invalid_rejected() {
    let mut config = base_config();
    config.spec.network = Some(NetworkConfig {
        cross_cluster: true,
        dns_zone: Some("UPPER.case".to_owned()),
    });
    assert!(validate(&config).is_err(), "uppercase should be rejected");

    config.spec.network = Some(NetworkConfig {
        cross_cluster: true,
        dns_zone: Some(".leading-dot".to_owned()),
    });
    assert!(validate(&config).is_err(), "leading dot should be rejected");

    config.spec.network = Some(NetworkConfig {
        cross_cluster: true,
        dns_zone: Some("nodot".to_owned()),
    });
    assert!(validate(&config).is_err(), "no dot should be rejected");
}

#[test]
fn coredns_forward_requires_cross_cluster() {
    let mut config = base_config();
    config.spec.stacks.insert(
        "net".to_owned(),
        StackSpec {
            description: None,
            steps: vec![StepSpec::CoreDnsForward {
                zone: "forge.test".to_owned(),
                upstreams: vec!["10.0.0.1".to_owned()],
            }],
        },
    );
    let Err(err) = validate(&config) else {
        panic!("expected a validation error");
    };
    let msg = err.to_string();
    assert!(msg.contains("crossCluster"), "should mention crossCluster: {msg}");
}

#[test]
fn environment_network_service_requires_cross_cluster() {
    let mut config = base_config();
    let mut svc = test_service("edge");
    svc.network = NetworkMode::Environment;
    config.spec.services = vec![svc];
    let Err(err) = validate(&config) else {
        panic!("expected a validation error");
    };
    let msg = err.to_string();
    assert!(
        msg.contains("edge") && msg.contains("crossCluster"),
        "expected crossCluster requirement error, got: {msg}"
    );
}

#[test]
fn environment_network_service_rejected_when_cross_cluster_false() {
    let mut config = base_config();
    config.spec.network = Some(NetworkConfig {
        cross_cluster: false,
        dns_zone: None,
    });
    let mut svc = test_service("edge");
    svc.network = NetworkMode::Environment;
    config.spec.services = vec![svc];
    assert!(
        validate(&config).is_err(),
        "crossCluster: false should not satisfy a network: environment service"
    );
}

#[test]
fn environment_network_service_passes_with_cross_cluster() {
    let mut config = base_config();
    config.spec.network = Some(NetworkConfig {
        cross_cluster: true,
        dns_zone: None,
    });
    let mut svc = test_service("edge");
    svc.network = NetworkMode::Environment;
    config.spec.services = vec![svc];
    validate(&config).unwrap();
}

#[test]
fn coredns_forward_zone_validated_as_dns() {
    let mut config = base_config();
    config.spec.network = Some(NetworkConfig {
        cross_cluster: true,
        dns_zone: None,
    });
    config.spec.stacks.insert(
        "net".to_owned(),
        StackSpec {
            description: None,
            steps: vec![StepSpec::CoreDnsForward {
                zone: "UPPER.BAD".to_owned(),
                upstreams: vec!["10.0.0.1".to_owned()],
            }],
        },
    );
    let Err(err) = validate(&config) else {
        panic!("expected a validation error");
    };
    let msg = err.to_string();
    assert!(msg.contains("valid DNS zone"), "should reject invalid zone: {msg}");
}

#[test]
fn coredns_forward_upstream_injection_rejected() {
    let cases = [
        "10.0.0.1; rm -rf /",
        ":::::",
        "host:",
        "host:0",
        "host:99999",
        "10.0.0.1:abc",
        "bad..name",
        "-bad.name",
        "bad.name-",
    ];
    for bad in cases {
        let mut config = base_config();
        config.spec.network = Some(NetworkConfig {
            cross_cluster: true,
            dns_zone: None,
        });
        config.spec.stacks.insert(
            "net".to_owned(),
            StackSpec {
                description: None,
                steps: vec![StepSpec::CoreDnsForward {
                    zone: "forge.test".to_owned(),
                    upstreams: vec![bad.to_owned()],
                }],
            },
        );
        assert!(validate(&config).is_err(), "should reject upstream {bad:?}");
    }
}

#[test]
fn coredns_forward_valid_upstream_passes() {
    let cases = [
        vec!["10.0.0.1"],
        vec!["10.0.0.1:53"],
        vec!["dns.server:53"],
        vec!["my-resolver.internal"],
        vec!["10.0.0.1", "dns.server:53"],
        // RFC 1123 hostnames may begin with a digit.
        vec!["0.pool.ntp.org"],
        vec!["1dot1dot1dot1.cloudflare-dns.com:53"],
    ];
    for upstreams in cases {
        let mut config = base_config();
        config.spec.network = Some(NetworkConfig {
            cross_cluster: true,
            dns_zone: None,
        });
        config.spec.stacks.insert(
            "net".to_owned(),
            StackSpec {
                description: None,
                steps: vec![StepSpec::CoreDnsForward {
                    zone: "forge.test".to_owned(),
                    upstreams: upstreams.iter().map(|name| (*name).to_owned()).collect(),
                }],
            },
        );
        validate(&config).unwrap();
    }
}

#[test]
fn cross_cluster_with_podman_rejected() {
    let mut config = base_config();
    config.spec.runtime = RuntimeConfig {
        provider: RuntimeProvider::Podman,
        ..RuntimeConfig::default()
    };
    config.spec.network = Some(NetworkConfig {
        cross_cluster: true,
        dns_zone: None,
    });
    let Err(err) = validate(&config) else {
        panic!("expected a validation error");
    };
    let msg = err.to_string();
    assert!(msg.contains("Podman"), "should mention Podman: {msg}");
}

#[test]
fn cross_cluster_with_docker_passes() {
    let mut config = base_config();
    config.spec.runtime = RuntimeConfig {
        provider: RuntimeProvider::Docker,
        ..RuntimeConfig::default()
    };
    config.spec.network = Some(NetworkConfig {
        cross_cluster: true,
        dns_zone: None,
    });
    validate(&config).unwrap();
}

#[test]
fn cross_cluster_with_auto_passes() {
    let mut config = base_config();
    config.spec.network = Some(NetworkConfig {
        cross_cluster: true,
        dns_zone: None,
    });
    validate(&config).unwrap();
}

#[test]
fn enabled_certificates_rejected_as_unimplemented() {
    let mut config = base_config();
    config.spec.certificates = Some(CertificateConfig { enabled: true });
    let Err(err) = validate(&config) else {
        panic!("expected a validation error");
    };
    let msg = err.to_string();
    assert!(
        msg.contains("not implemented"),
        "expected unimplemented certificates error, got: {msg}"
    );
}

#[test]
fn disabled_certificates_pass() {
    let mut config = base_config();
    config.spec.certificates = Some(CertificateConfig { enabled: false });
    validate(&config).unwrap();
}

#[test]
fn capture_step_rejects_blank_resource() {
    let mut config = base_config();
    config.spec.stacks.insert(
        "base".to_owned(),
        StackSpec {
            description: None,
            steps: vec![StepSpec::Capture {
                resource: String::new(),
                namespace: None,
                jsonpath: "{.spec}".to_owned(),
                key: "k".to_owned(),
                timeout: "1s".to_owned(),
                interval: "1ms".to_owned(),
            }],
        },
    );
    assert!(validate(&config).is_err(), "capture should reject blank resource");
}

#[test]
fn capture_step_rejects_blank_jsonpath() {
    let mut config = base_config();
    config.spec.stacks.insert(
        "base".to_owned(),
        StackSpec {
            description: None,
            steps: vec![StepSpec::Capture {
                resource: "svc/web".to_owned(),
                namespace: None,
                jsonpath: String::new(),
                key: "k".to_owned(),
                timeout: "1s".to_owned(),
                interval: "1ms".to_owned(),
            }],
        },
    );
    assert!(validate(&config).is_err(), "capture should reject blank jsonpath");
}

#[test]
fn capture_step_rejects_key_with_dots() {
    let mut config = base_config();
    config.spec.stacks.insert(
        "base".to_owned(),
        StackSpec {
            description: None,
            steps: vec![StepSpec::Capture {
                resource: "svc/web".to_owned(),
                namespace: None,
                jsonpath: "{.spec}".to_owned(),
                key: "bad.key".to_owned(),
                timeout: "1s".to_owned(),
                interval: "1ms".to_owned(),
            }],
        },
    );
    assert!(validate(&config).is_err(), "capture should reject key with dots");
}

#[test]
fn capture_step_valid_passes() {
    let mut config = base_config();
    config.spec.stacks.insert(
        "base".to_owned(),
        StackSpec {
            description: None,
            steps: vec![StepSpec::Capture {
                resource: "svc/provider-gateway".to_owned(),
                namespace: Some("grid-system".to_owned()),
                jsonpath: "{.status.loadBalancer.ingress[0].ip}".to_owned(),
                key: "provider-gateway-ip".to_owned(),
                timeout: "1s".to_owned(),
                interval: "1ms".to_owned(),
            }],
        },
    );
    validate(&config).unwrap();
}

#[test]
fn template_manifest_validates_path() {
    let mut config = base_config();
    config.spec.stacks.insert(
        "base".to_owned(),
        StackSpec {
            description: None,
            steps: vec![StepSpec::TemplateManifest {
                path: "../escape.yaml".to_owned(),
            }],
        },
    );
    let Err(err) = validate(&config) else {
        panic!("expected a validation error");
    };
    let msg = err.to_string();
    assert!(msg.contains("escape"), "should reject path escape: {msg}");
}

#[test]
fn template_manifest_valid_passes() {
    let mut config = base_config();
    config.spec.stacks.insert(
        "base".to_owned(),
        StackSpec {
            description: None,
            steps: vec![StepSpec::TemplateManifest {
                path: "resources/gridnetwork.yaml".to_owned(),
            }],
        },
    );
    validate(&config).unwrap();
}

#[test]
fn incompatible_api_version_rejected() {
    let mut config = base_config();
    config.api_version = "forge.praxis.dev/v2beta1".to_owned();
    let result = validate(&config);
    assert!(
        result.is_err(),
        "incompatible apiVersion should be rejected"
    );
    assert_eq!(
        result.unwrap_err().to_string(),
        "validation error: expected apiVersion \"forge.praxis.dev/v1alpha1\", got \"forge.praxis.dev/v2beta1\""
    );
}

#[test]
fn compatibility_wrong_kind_rejected() {
    let mut config = base_config();
    config.kind = "Cluster".to_owned();
    let result = validate(&config);
    assert!(result.is_err(), "wrong kind should be rejected");
}
