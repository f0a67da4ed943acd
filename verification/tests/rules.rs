use forge::config::validate::clusters::{check_cluster_port, check_cluster_stack_refs};
use forge::config::validate::services::{
    check_env_key, check_health_check, check_port_bind_address, check_service_args_bounded, check_service_image,
    check_volume_target,
};
use forge::config::validate::steps::{
    check_capture_step, check_coredns_forward_step, check_exec_step, check_for_each_step, check_helm_step, check_step,
    check_url_step,
};
use forge::config::validate::validate;
use forge::config::{
    ClusterSpec, EnvironmentSpec, ForgeConfig, HealthCheck, HealthCheckType, Metadata, NetworkConfig, NetworkMode,
    NodeConfig, PortMapping, RestartPolicy, RuntimeConfig, ServiceSpec, StackSpec, StepSpec, API_VERSION, KIND,
};
use forge::error::ForgeError;
use forge::json::Json;
use forge::strmap::StrMap;

fn message(r: Result<(), ForgeError>) -> String {
    match r {
        Ok(()) => "ok".to_owned(),
        Err(ForgeError::Validation(m)) => m,
        Err(other) => panic!("unexpected error {other:?}"),
    }
}

fn config() -> ForgeConfig {
    ForgeConfig {
        api_version: API_VERSION.to_owned(),
        kind: KIND.to_owned(),
        metadata: Metadata { name: "test".to_owned() },
        spec: EnvironmentSpec {
            runtime: RuntimeConfig::default(),
            network: None,
            clusters: Vec::new(),
            services: Vec::new(),
            certificates: None,
            stacks: StrMap::new(),
        },
    }
}

fn cluster(name: &str) -> ClusterSpec {
    ClusterSpec {
        name: name.to_owned(),
        nodes: NodeConfig::default(),
        ports: Vec::new(),
        stacks: Vec::new(),
        properties: StrMap::new(),
    }
}

fn service(name: &str) -> ServiceSpec {
    ServiceSpec {
        name: name.to_owned(),
        image: "example/svc:v1".to_owned(),
        auto_start: true,
        network: NetworkMode::Detached,
        depends_on: Vec::new(),
        ports: Vec::new(),
        volumes: Vec::new(),
        env: StrMap::new(),
        args: Vec::new(),
        restart: RestartPolicy::No,
        inherit_host_group: false,
        health_check: None,
    }
}

fn port(bind_address: Option<&str>, host: u16, container: u16, protocol: &str) -> PortMapping {
    PortMapping {
        bind_address: bind_address.map(str::to_owned),
        host,
        container,
        protocol: protocol.to_owned(),
    }
}

fn text(s: &str) -> String {
    s.to_owned()
}

#[test]
fn identity_messages() {
    let mut c = config();
    c.kind = text("Cluster");
    assert_eq!(message(validate(&c)), "expected kind \"Environment\", got \"Cluster\"");
    let mut c = config();
    c.metadata.name = text("");
    assert_eq!(message(validate(&c)), "metadata.name: name must not be empty");
    assert_eq!(message(validate(&config())), "ok");
}

#[test]
fn node_count_messages() {
    let mut c = config();
    c.spec.clusters.push(cluster("big"));
    c.spec.clusters[0].nodes = NodeConfig { control_planes: 10, workers: 0 };
    assert_eq!(message(validate(&c)), "cluster \"big\": controlPlanes must be 1..=9");
    c.spec.clusters[0].nodes = NodeConfig { control_planes: 9, workers: 101 };
    assert_eq!(message(validate(&c)), "cluster \"big\": workers must not exceed 100");
    c.spec.clusters[0].nodes = NodeConfig { control_planes: 9, workers: 100 };
    assert_eq!(message(validate(&c)), "ok");
}

#[test]
fn cluster_port_messages() {
    assert_eq!(
        message(check_cluster_port(&port(None, 1, 0, "tcp"), "c")),
        "cluster \"c\": port mapping host and container ports must not be zero"
    );
    assert_eq!(
        message(check_cluster_port(&port(Some("x"), 1, 1, "tcp"), "c")),
        "cluster \"c\": bind address \"x\" is not a valid IP"
    );
    assert_eq!(
        message(check_cluster_port(&port(None, 1, 1, "HTTP"), "c")),
        "cluster \"c\": unsupported port protocol \"HTTP\" (expected tcp, udp, or sctp)"
    );
    assert_eq!(message(check_cluster_port(&port(Some("::1"), 1, 1, "SCTP"), "c")), "ok");
}

#[test]
fn conflict_messages_name_both_sides() {
    let mut c = config();
    c.spec.clusters.push(cluster("alpha"));
    c.spec.clusters[0].ports = vec![port(None, 8080, 1, "TCP"), port(Some("127.0.0.1"), 8080, 2, "tcp")];
    assert_eq!(
        message(validate(&c)),
        "cluster \"alpha\": duplicate host port binding 127.0.0.1:8080/tcp"
    );
    c.spec.clusters[0].ports.truncate(1);
    let mut svc = service("web");
    svc.ports = vec![port(None, 8080, 1, "tcp")];
    c.spec.services.push(svc);
    assert_eq!(
        message(validate(&c)),
        "service \"web\": host port binding 0.0.0.0:8080/tcp is already mapped by cluster \"alpha\""
    );
}

#[test]
fn stack_reference_messages() {
    let mut c = config();
    c.spec.clusters.push(cluster("hub"));
    c.spec.clusters[0].stacks = vec![text("base")];
    assert_eq!(
        message(check_cluster_stack_refs(&c)),
        "cluster \"hub\" references unknown stack \"base\""
    );
    c.spec.stacks.insert(text("base"), StackSpec { description: None, steps: Vec::new() });
    assert_eq!(message(check_cluster_stack_refs(&c)), "ok");
    c.spec.clusters[0].stacks.push(text("base"));
    assert_eq!(
        message(check_cluster_stack_refs(&c)),
        "cluster \"hub\": stack \"base\" referenced more than once"
    );
}

#[test]
fn service_field_messages() {
    let mut svc = service("s");
    svc.image = text(" ");
    assert_eq!(message(check_service_image(&svc)), "service \"s\": image: must not be blank");
    svc.image = "x".repeat(513);
    assert_eq!(message(check_service_image(&svc)), "service \"s\": image: exceeds 512 characters");
    svc.image = text("-x");
    assert_eq!(message(check_service_image(&svc)), "service \"s\": image: must not start with '-'");
    svc.args = vec![text("a"); 129];
    assert_eq!(message(check_service_args_bounded(&svc)), "service \"s\": more than 128 args");
    svc.args = vec!["x".repeat(4097)];
    assert_eq!(message(check_service_args_bounded(&svc)), "service \"s\": arg exceeds 4096 characters");
    assert_eq!(message(check_volume_target("", "s")), "service \"s\": volume target must not be empty");
    assert_eq!(message(check_volume_target("a", "s")), "service \"s\": volume target must be an absolute path");
    assert_eq!(message(check_env_key("", "s")), "service \"s\": environment key must not be empty");
    assert_eq!(
        message(check_env_key(&"k".repeat(257), "s")),
        "service \"s\": environment key exceeds 256 characters"
    );
    assert_eq!(
        message(check_env_key("a-b", "s")),
        "service \"s\": environment key \"a-b\" is not a valid identifier"
    );
    assert_eq!(
        message(check_port_bind_address(&Some(text("nope")), "s")),
        "service \"s\": bind address \"nope\" is not a valid IP"
    );
}

#[test]
fn health_check_messages() {
    let mut check = HealthCheck {
        check_type: HealthCheckType::Tcp,
        port: 0,
        interval: text("1s"),
        timeout: text("1s"),
        retries: 301,
    };
    assert_eq!(message(check_health_check(&check, "s")), "service \"s\": health check port must not be zero");
    check.port = 80;
    assert_eq!(message(check_health_check(&check, "s")), "service \"s\": health check retries must be 1..=300");
    check.retries = 300;
    assert_eq!(message(check_health_check(&check, "s")), "ok");
    let mut c = config();
    let mut svc = service("web");
    svc.health_check = Some(check);
    c.spec.services.push(svc);
    assert_eq!(
        message(validate(&c)),
        "service \"web\": health check port 80 must match a published tcp container port unless network is host"
    );
    c.spec.services[0].network = NetworkMode::Host;
    assert_eq!(message(validate(&c)), "ok");
}

#[test]
fn dependency_messages() {
    let mut c = config();
    let mut a = service("a");
    a.depends_on = vec![text("a")];
    c.spec.services.push(a);
    assert_eq!(message(validate(&c)), "service \"a\": depends on itself");
    c.spec.services[0].depends_on = vec![text("b")];
    assert_eq!(message(validate(&c)), "service \"a\": depends on unknown service \"b\"");
    let mut b = service("b");
    b.auto_start = false;
    c.spec.services.push(b);
    assert_eq!(
        message(validate(&c)),
        "service \"a\": auto-started service depends on non-auto-start service \"b\""
    );
    c.spec.services[1].auto_start = true;
    assert_eq!(message(validate(&c)), "ok");
    c.spec.services[1].depends_on = vec![text("a")];
    assert_eq!(message(validate(&c)), "service dependency cycle detected");
}

#[test]
fn repeated_steps_are_checked_at_any_depth() {
    let bad = StepSpec::Manifest { path: text("../x") };
    let inner = StepSpec::ForEach { property: text("p"), steps: vec![bad] };
    let outer = StepSpec::ForEach { property: text("q"), steps: vec![inner] };
    assert_eq!(
        message(check_step("s", &outer)),
        "stack \"s\": path: path must be relative and must not escape the config root"
    );
    assert_eq!(
        message(check_for_each_step("s", "p", &Vec::new())),
        "stack \"s\": for-each steps must not be empty"
    );
    assert_eq!(
        message(check_for_each_step("s", " ", &Vec::new())),
        "stack \"s\": for-each property: must not be blank"
    );
}

#[test]
fn step_messages() {
    assert_eq!(message(check_url_step("s", "", "")), "stack \"s\": url: must not be blank");
    assert_eq!(
        message(check_url_step("s", "http://x", "")),
        "stack \"s\": remote manifest URLs must use https"
    );
    assert_eq!(
        message(check_url_step("s", "https://x", "abc")),
        "stack \"s\": sha256: expected a 64-character SHA-256 hex digest"
    );
    assert_eq!(message(check_url_step("s", "https://x", &"aF".repeat(32))), "ok");
    let helm = |chart: &str, version: &str| StepSpec::Helm {
        release: text("r"),
        chart: text(chart),
        version: text(version),
        namespace: Some(text("Bad")),
        values: StrMap::new(),
    };
    assert_eq!(
        message(check_helm_step("s", &helm("-c", "1"))),
        "stack \"s\": helm chart: must not start with '-'"
    );
    assert_eq!(
        message(check_helm_step("s", &helm("c", "-1"))),
        "stack \"s\": helm version: must not start with '-'"
    );
    assert_eq!(
        message(check_helm_step("s", &helm("c", "1"))),
        "stack \"s\": namespace: \"Bad\" contains invalid characters (allowed: lowercase alphanumeric and hyphens)"
    );
    let capture = StepSpec::Capture {
        resource: text("svc/web"),
        namespace: None,
        jsonpath: text("{.x}"),
        key: text("a.b"),
        timeout: text("1s"),
        interval: text("1s"),
    };
    assert_eq!(
        message(check_capture_step("s", &capture)),
        "stack \"s\": capture key must not contain dots"
    );
    assert_eq!(message(check_helm_step("s", &capture)), "ok");
    let deployment = StepSpec::Deployment { name: text("d"), image: text(""), replicas: 1, namespace: None };
    assert_eq!(message(check_step("s", &deployment)), "stack \"s\": deployment image: must not be blank");
    let svc = StepSpec::Service { name: text("d"), port: 0, namespace: None };
    assert_eq!(message(check_step("s", &svc)), "stack \"s\": service port must not be zero");
    let pool = StepSpec::MetallbAutoPool { name: text("") };
    assert_eq!(message(check_step("s", &pool)), "stack \"s\": metallb pool name: name must not be empty");
    let file = StepSpec::TemplateFile { source: text("a"), target: text("/b") };
    assert_eq!(
        message(check_step("s", &file)),
        "stack \"s\": template-file target: path must be relative and must not escape the config root"
    );
}

#[test]
fn exec_messages() {
    let none: StrMap<String> = StrMap::new();
    assert_eq!(
        message(check_exec_step("s", &Vec::new(), &none)),
        "stack \"s\": exec command must not be empty"
    );
    assert_eq!(
        message(check_exec_step("s", &vec![text(" ")], &none)),
        "stack \"s\": exec command argument: must not be blank"
    );
    let mut env: StrMap<String> = StrMap::new();
    env.insert(text("B"), text(""));
    assert_eq!(
        message(check_exec_step("s", &vec![text("x")], &env)),
        "stack \"s\": exec env value for \"B\": must not be blank"
    );
    env.insert(text("A-A"), text("x"));
    assert_eq!(
        message(check_exec_step("s", &vec![text("x")], &env)),
        "stack \"s\": exec env key \"A-A\" is not a valid identifier"
    );
}

#[test]
fn forwarding_messages() {
    assert_eq!(
        message(check_coredns_forward_step("s", "NODOT", &Vec::new())),
        "stack \"s\": coredns-forward zone: \"NODOT\" is not a valid DNS zone"
    );
    assert_eq!(
        message(check_coredns_forward_step("s", "a.b", &Vec::new())),
        "stack \"s\": coredns-forward requires at least one upstream"
    );
    assert_eq!(
        message(check_coredns_forward_step("s", "a.b", &vec![text("x".repeat(254).as_str())])),
        "stack \"s\": coredns-forward upstream: exceeds 253 characters"
    );
}

#[test]
fn template_message_names_the_path() {
    let mut c = config();
    c.spec.clusters.push(cluster("hub"));
    c.spec.clusters[0].properties.insert(
        text("pools"),
        Json::Array(vec![Json::Null, Json::Object(vec![(text("n"), Json::String(text("{{ x }}")))])]),
    );
    assert_eq!(
        message(validate(&c)),
        "template syntax ({{ ... }}) is not supported outside stack steps (found at \
         $.spec.clusters[0].properties.pools[1].n)"
    );
}

#[test]
fn first_failing_rule_is_reported() {
    let mut c = config();
    c.api_version = text("v2");
    c.kind = text("x");
    c.metadata.name = text("Bad");
    assert_eq!(
        message(validate(&c)),
        "expected apiVersion \"forge.praxis.dev/v1alpha1\", got \"v2\""
    );
}

#[test]
fn repeated_forwarding_requires_cross_cluster() {
    let mut c = config();
    let forward = StepSpec::CoreDnsForward { zone: text("forge.test"), upstreams: vec![text("10.0.0.1")] };
    let inner = StepSpec::ForEach { property: text("p"), steps: vec![forward] };
    let outer = StepSpec::ForEach { property: text("q"), steps: vec![inner] };
    c.spec.stacks.insert(text("net"), StackSpec { description: None, steps: vec![outer] });
    assert_eq!(
        message(validate(&c)),
        "stack \"net\": core-dns-forward requires spec.network.crossCluster: true"
    );
    c.spec.network = Some(NetworkConfig { cross_cluster: true, dns_zone: None });
    assert_eq!(message(validate(&c)), "ok");
}

#[test]
fn acceptance_does_not_depend_on_order() {
    let build = |names: [&str; 3], conflict: bool| {
        let mut c = config();
        for name in names {
            let mut svc = service(name);
            svc.ports = vec![port(None, if conflict { 80 } else { 80 + name.len() as u16 }, 80, "tcp")];
            if name == "app1" {
                svc.depends_on = vec![text("db")];
            }
            c.spec.services.push(svc);
            c.spec.clusters.push(cluster(name));
        }
        c
    };
    for names in [["db", "app1", "web"], ["web", "app1", "db"], ["app1", "db", "web"]] {
        assert_eq!(message(validate(&build(names, false))), "ok");
        assert!(validate(&build(names, true)).is_err());
    }
}
