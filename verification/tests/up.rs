use forge::command::up::records::{
    ensure_healthy, ensure_state_entry, health_probe_target, run_health_check, set_network_active,
    set_network_created, update_digest, upsert_svc_state, HealthPlan,
};
use forge::command::up::{fail_phase, run, UpAction, UpEvent, UpPhase, UpRun};
use forge::config::{
    ClusterSpec, EnvironmentSpec, ForgeConfig, HealthCheck, HealthCheckType, Metadata, NetworkConfig, NetworkMode,
    NodeConfig, PortMapping, RestartPolicy, RuntimeConfig, RuntimeProvider, ServiceSpec, API_VERSION, KIND,
};
use forge::context::{ForgeContext, OutputFormat, Shown};
use forge::error::ForgeError;
use forge::json::to_text;
use forge::state::{
    self, ClusterPhase, ClusterPool, ClusterState, ForgeState, NetworkPhase, NetworkState, ServiceHealth,
    ServicePhase, StackPhase, StackState,
};
use forge::strmap::StrMap;

const NOW: u64 = 1_700_000_000;

fn base_config(provider: RuntimeProvider) -> ForgeConfig {
    ForgeConfig {
        api_version: API_VERSION.to_owned(),
        kind: KIND.to_owned(),
        metadata: Metadata { name: "test".to_owned() },
        spec: EnvironmentSpec {
            runtime: RuntimeConfig { provider, cluster_prefix: "forge".to_owned() },
            network: None,
            clusters: Vec::new(),
            services: Vec::new(),
            certificates: None,
            stacks: StrMap::new(),
        },
    }
}

fn hub() -> ClusterSpec {
    ClusterSpec {
        name: "hub".to_owned(),
        nodes: NodeConfig::default(),
        ports: Vec::new(),
        stacks: Vec::new(),
        properties: StrMap::new(),
    }
}

fn service(name: &str, auto_start: bool) -> ServiceSpec {
    ServiceSpec {
        name: name.to_owned(),
        image: format!("example/{name}:v1"),
        auto_start,
        network: NetworkMode::Detached,
        depends_on: Vec::new(),
        ports: Vec::new(),
        volumes: Vec::new(),
        env: StrMap::new(),
        args: Vec::new(),
        restart: RestartPolicy::No,
        inherit_host_group: false,
        health_check: None,
    }
}

/// Build a minimal `ForgeConfig` with one cluster.
fn test_config() -> ForgeConfig {
    let mut config = base_config(RuntimeProvider::Docker);
    config.spec.clusters.push(hub());
    config
}

fn test_config_with_network() -> ForgeConfig {
    let mut config = test_config();
    config.spec.network = Some(NetworkConfig { cross_cluster: true, dns_zone: None });
    config
}

fn test_config_with_health_check(port: u16) -> ForgeConfig {
    let mut config = base_config(RuntimeProvider::Docker);
    let mut web = service("web", true);
    web.ports = vec![PortMapping { bind_address: None, host: port, container: 80, protocol: "tcp".to_owned() }];
    web.health_check = Some(HealthCheck {
        check_type: HealthCheckType::Tcp,
        port: 80,
        interval: "1ms".to_owned(),
        timeout: "50ms".to_owned(),
        retries: 1,
    });
    config.spec.services.push(web);
    config
}

fn context(config: &ForgeConfig, dry_run: bool) -> ForgeContext<'_> {
    ForgeContext {
        config,
        config_dir: "/cfg".to_owned(),
        state_dir: "/state".to_owned(),
        format: OutputFormat::Text,
        dry_run,
    }
}

/// What the outside answers.
struct World {
    binary: String,
    existing: Vec<String>,
    fail_on: Option<String>,
    healthy: bool,
    cidr: String,
    calls: Vec<String>,
    loaded: ForgeState,
    saved: Vec<ForgeState>,
}

impl World {
    fn new() -> World {
        World {
            binary: "docker".to_owned(),
            existing: Vec::new(),
            fail_on: None,
            healthy: true,
            cidr: "172.18.0.0/16".to_owned(),
            calls: Vec::new(),
            loaded: state::empty(),
            saved: Vec::new(),
        }
    }

    fn failing(on: &str) -> World {
        World { fail_on: Some(on.to_owned()), ..World::new() }
    }

    fn was_called(&self, what: &str) -> bool {
        self.calls.iter().any(|c| c.contains(what))
    }

    fn call(&mut self, what: String, answer: UpEvent) -> UpEvent {
        let fails = self.fail_on.as_ref().is_some_and(|f| what.contains(f.as_str()));
        self.calls.push(what);
        if fails {
            UpEvent::Failed(ForgeError::Command { program: "tool".to_owned(), message: "blew up".to_owned() })
        } else {
            answer
        }
    }

    fn drive(&mut self, ctx: &ForgeContext<'_>) -> Result<Shown, ForgeError> {
        let mut up = UpRun::new(ctx);
        let mut event = UpEvent::Begin;
        loop {
            event = match run(ctx, &mut up, event, NOW) {
                UpAction::ResolveRuntime => {
                    let binary = self.binary.clone();
                    self.call("resolve".to_owned(), UpEvent::Resolved(binary))
                }
                UpAction::Lock => self.call("lock".to_owned(), UpEvent::Locked),
                UpAction::Load => {
                    let loaded = self.loaded.clone();
                    self.call("load".to_owned(), UpEvent::Loaded(loaded))
                }
                UpAction::CreateNetwork { name } => {
                    self.call(format!("network create {name}"), UpEvent::NetworkCreated)
                }
                UpAction::InspectNetwork { name } => {
                    let cidr = self.cidr.clone();
                    self.call(format!("network inspect {name}"), UpEvent::NetworkInspected(cidr))
                }
                UpAction::FindCluster { kind_name } => {
                    let found = self.existing.contains(&kind_name);
                    self.call("kind get clusters".to_owned(), UpEvent::ClusterFound(found))
                }
                UpAction::CreateCluster { cluster, kind_name, network } => self.call(
                    format!(
                        "kind create cluster {} --name {kind_name} on {}",
                        ctx.config.spec.clusters[cluster].name,
                        network.unwrap_or_default()
                    ),
                    UpEvent::ClusterCreated,
                ),
                UpAction::ExportKubeconfig { kind_name, name } => {
                    self.call(format!("kind get kubeconfig --name {kind_name} for {name}"), UpEvent::Exported)
                }
                UpAction::StartService { service, params } => self.call(
                    format!(
                        "{} run {} {} {} {} {}",
                        params.binary,
                        params.container_name,
                        ctx.config.spec.services[service].image,
                        params.env_name,
                        params.config_dir,
                        params.state_dir
                    ),
                    UpEvent::Started,
                ),
                UpAction::ProbeHealth { service, addr, port } => {
                    let healthy = self.healthy;
                    self.call(
                        format!("probe {} {addr}:{port}", ctx.config.spec.services[service].name),
                        UpEvent::Probed(healthy),
                    )
                }
                UpAction::Save => {
                    let event = self.call("save".to_owned(), UpEvent::Saved);
                    if matches!(event, UpEvent::Saved) {
                        self.saved.push(up.state.clone());
                    }
                    event
                }
                UpAction::Show(shown) => return Ok(shown),
                UpAction::Fail(error) => return Err(error),
            };
        }
    }

    fn text(&mut self, ctx: &ForgeContext<'_>) -> String {
        match self.drive(ctx).unwrap() {
            Shown::Lines(lines) => lines.join("\n"),
            Shown::Document(value) => to_text(&value),
        }
    }

    fn last_saved(&self) -> &ForgeState {
        self.saved.last().unwrap()
    }
}

#[test]
fn up_creates_missing_cluster() {
    let config = test_config();
    let mut world = World::new();
    let text = world.text(&context(&config, false));
    assert!(world.was_called("kind create cluster"), "should call kind create");
    assert!(text.contains("created"), "output should mention created: {text}");
    assert_eq!(text, "created cluster 'hub' (kind name: forge-hub)");
}

#[test]
fn up_skips_existing_cluster() {
    let config = test_config();
    let mut world = World::new();
    world.existing.push("forge-hub".to_owned());
    let text = world.text(&context(&config, false));
    assert!(!world.was_called("kind create"), "should not call kind create");
    assert!(text.contains("already exists"), "output should note existing: {text}");
}

#[test]
fn up_persists_creating_phase_when_create_fails() {
    let config = test_config();
    let mut world = World::failing("kind create");
    let result = world.drive(&context(&config, false));
    assert!(result.is_err(), "a failing create should fail the run");
    let before_create = &world.saved[world.saved.len() - 2];
    for st in [before_create, world.last_saved()] {
        assert_eq!(
            state::find_cluster(st, "hub").map(|cs| cs.phase.clone()),
            Some(ClusterPhase::Creating),
            "an interrupted create must leave a Creating record for down"
        );
    }
}

#[test]
fn up_dry_run_does_not_create() {
    let config = test_config();
    let mut world = World::new();
    let text = world.text(&context(&config, true));
    assert!(!world.was_called("kind create"), "dry-run should not call kind create");
    assert!(text.contains("would create"), "should say would create: {text}");
}

#[test]
fn up_skips_services_with_auto_start_false() {
    let mut config = base_config(RuntimeProvider::Docker);
    config.spec.services.push(service("placeholder", false));
    let mut world = World::new();
    let text = world.text(&context(&config, false));
    assert!(!world.was_called("docker run"), "autoStart false should not start");
    assert!(
        !text.contains("placeholder"),
        "skipped service should not appear as started: {text}"
    );
}

#[test]
fn up_exports_kubeconfig_when_services_are_configured() {
    let mut config = test_config();
    config.spec.services.push(service("placeholder", false));
    let mut world = World::new();
    let _text = world.text(&context(&config, false));
    assert!(
        world.was_called("kind get kubeconfig --name forge-hub"),
        "service-bearing environments should export a container-reachable kubeconfig"
    );
}

#[test]
fn up_fails_when_service_health_check_never_passes() {
    let config = test_config_with_health_check(40123);
    let mut world = World::new();
    world.healthy = false;
    let Err(err) = world.drive(&context(&config, false)) else {
        panic!("expected a failure");
    };
    let msg = err.to_string();
    assert!(
        msg.contains("service 'web'") && msg.contains("failed its health check"),
        "the error must name the unhealthy service: {msg}"
    );
    assert_eq!(
        msg,
        "runtime error: service 'web' (container: test-web) failed its health check after 1 retries"
    );
    assert_eq!(
        state::find_service(world.last_saved(), "web").map(|svc| svc.phase.clone()),
        Some(ServicePhase::Unhealthy),
        "the failed probe must still be recorded in state"
    );
}

#[test]
fn up_does_not_export_kubeconfig_without_services() {
    let config = test_config();
    let mut world = World::new();
    let _text = world.text(&context(&config, false));
    assert!(
        !world.was_called("kind get kubeconfig"),
        "service-free environments should not write kubeconfigs containing client key material"
    );
}

#[test]
fn ensure_state_entry_refreshes_stale_kind_name() {
    let mut st = state::empty();
    st.clusters.push(ClusterState {
        name: "hub".to_owned(),
        kind_name: "forge-hub".to_owned(),
        context: "kind-forge-hub".to_owned(),
        phase: ClusterPhase::Gone,
    });
    ensure_state_entry(&mut st, "hub", "dev-hub", ClusterPhase::Running);
    let cluster = state::find_cluster(&st, "hub").unwrap();
    assert_eq!(cluster.kind_name, "dev-hub", "kind name must track the current prefix");
    assert_eq!(cluster.context, "kind-dev-hub", "context must follow the new kind name");
    assert_eq!(cluster.phase, ClusterPhase::Running, "phase must be updated");
}

/// Resolve the probe target for a service with the given mapping.
fn probe_target_for(bind_address: Option<&str>, container_port: u16) -> Option<(String, u16)> {
    let mut web = service("web", true);
    web.ports = vec![PortMapping {
        bind_address: bind_address.map(str::to_owned),
        host: 8080,
        container: 80,
        protocol: "tcp".to_owned(),
    }];
    health_probe_target(&web, container_port)
}

#[test]
fn health_probe_maps_container_port_to_host_port() {
    let target = probe_target_for(Some("127.0.0.1"), 80);
    assert_eq!(target, Some(("127.0.0.1".to_owned(), 8080)));
}

#[test]
fn health_probe_uses_the_mapping_bind_address() {
    let target = probe_target_for(Some("192.168.1.50"), 80);
    assert_eq!(target, Some(("192.168.1.50".to_owned(), 8080)));
}

#[test]
fn health_probe_treats_unspecified_bind_addresses_as_loopback() {
    let all_v4 = probe_target_for(Some("0.0.0.0"), 80);
    assert_eq!(all_v4, Some(("127.0.0.1".to_owned(), 8080)));
    let all_v6 = probe_target_for(Some("::"), 80);
    assert_eq!(all_v6, Some(("::1".to_owned(), 8080)));
    let other_v6 = probe_target_for(Some("::0"), 80);
    assert_eq!(other_v6, Some(("::1".to_owned(), 8080)));
    let unset = probe_target_for(None, 80);
    assert_eq!(unset, Some(("127.0.0.1".to_owned(), 8080)));
}

#[test]
fn up_creates_network_when_configured() {
    let config = test_config_with_network();
    let mut world = World::new();
    let text = world.text(&context(&config, false));
    assert!(world.was_called("network create"), "should call network create");
    assert!(
        text.contains("network 'test-net' ready"),
        "should report network: {text}"
    );
    assert!(
        world.was_called("kind create cluster hub --name forge-hub on test-net"),
        "kind create should use the network"
    );
}

#[test]
fn up_records_earlier_phase_when_later_phase_fails() {
    let config = test_config_with_network();
    let mut world = World::failing("kind get clusters");
    let result = world.drive(&context(&config, false));
    assert!(result.is_err(), "a failing cluster phase should fail the run");
    assert!(
        world.was_called("network create"),
        "the network phase should have created a real network"
    );
    assert!(
        !world.saved.is_empty(),
        "a failed run must still persist what earlier phases created"
    );
    let persisted = world.last_saved();
    let net = persisted.network.as_ref();
    assert_eq!(
        net.map(|ns| ns.name.as_str()),
        Some("test-net"),
        "the created network must be recorded so down can remove it"
    );
    assert_eq!(
        net.map(|ns| ns.phase),
        Some(NetworkPhase::Active),
        "the recorded network should be marked active"
    );
    let op = persisted.last_operation.as_ref().unwrap();
    assert_eq!(op.operation, "up", "the failed run must be the last operation");
    assert!(!op.success, "a failed phase must not be recorded as a success");
}

#[test]
fn up_records_network_when_cidr_inspect_fails() {
    let config = test_config_with_network();
    let mut world = World::failing("network inspect");
    let result = world.drive(&context(&config, false));
    assert!(result.is_err(), "a failing CIDR inspect should fail the run");
    assert!(
        world.was_called("network create"),
        "the network should really have been created"
    );
    assert_eq!(
        world.last_saved().network.as_ref().map(|ns| ns.name.as_str()),
        Some("test-net"),
        "a created network must be recorded even when the CIDR lookup fails"
    );
}

#[test]
fn checkpoint_failure_is_reported_alongside_the_phase_failure() {
    let config = test_config_with_network();
    let ctx = context(&config, false);
    let mut up = UpRun::new(&ctx);
    let action = fail_phase(&ctx, &mut up, ForgeError::State("phase blew up".to_owned()), NOW);
    assert!(matches!(action, UpAction::Save));
    let lost = ForgeError::State("cannot write".to_owned());
    let UpAction::Fail(err) = run(&ctx, &mut up, UpEvent::Failed(lost), NOW) else {
        panic!("expected a failure");
    };
    let msg = err.to_string();
    assert!(
        msg.contains("phase blew up"),
        "the phase failure must stay visible: {msg}"
    );
    assert!(
        msg.contains("not recorded"),
        "a lost checkpoint must be reported too: {msg}"
    );
}

#[test]
fn up_dry_run_writes_no_state_file() {
    let config = test_config_with_network();
    let mut world = World::new();
    let _text = world.text(&context(&config, true));
    assert!(!world.was_called("save"), "dry-run must not persist state");
}

#[test]
fn up_skips_network_without_config() {
    let config = test_config();
    let mut world = World::new();
    let text = world.text(&context(&config, false));
    assert!(!world.was_called("network"), "should not call any network commands");
    assert!(!text.contains("network"), "should not mention network: {text}");
}

#[test]
fn up_dry_run_reports_network() {
    let config = test_config_with_network();
    let mut world = World::new();
    let text = world.text(&context(&config, true));
    assert!(
        !world.was_called("network create"),
        "dry-run should not create network"
    );
    assert!(
        text.contains("would create network"),
        "should report would create network: {text}"
    );
}

#[test]
fn set_network_active_preserves_compatible_pools() {
    let mut st = state::empty();
    st.network = Some(NetworkState {
        name: "old-net".to_owned(),
        phase: NetworkPhase::Active,
        cidr: Some("172.18.0.0/16".to_owned()),
        cluster_pools: vec![ClusterPool {
            cluster: "hub".to_owned(),
            range: "172.18.255.231-172.18.255.250".to_owned(),
        }],
    });
    set_network_active(&mut st, "old-net", "172.18.0.0/16");
    let net = st.network.as_ref().unwrap();
    assert_eq!(net.name, "old-net", "name should be preserved");
    assert_eq!(net.cidr.as_deref(), Some("172.18.0.0/16"), "cidr should be preserved");
    assert_eq!(net.cluster_pools.len(), 1, "pools should be preserved");
}

#[test]
fn set_network_active_clears_pools_when_cidr_changes() {
    let mut st = state::empty();
    st.network = Some(NetworkState {
        name: "test-net".to_owned(),
        phase: NetworkPhase::Gone,
        cidr: Some("172.19.0.0/16".to_owned()),
        cluster_pools: vec![ClusterPool {
            cluster: "hub".to_owned(),
            range: "172.19.255.231-172.19.255.250".to_owned(),
        }],
    });
    set_network_active(&mut st, "test-net", "172.18.0.0/16");
    let net = st.network.as_ref().unwrap();
    assert_eq!(net.phase, NetworkPhase::Active);
    assert_eq!(net.cidr.as_deref(), Some("172.18.0.0/16"));
    assert!(net.cluster_pools.is_empty(), "stale pools must be discarded");
}

#[test]
fn cross_cluster_auto_resolved_docker_passes() {
    let mut config = test_config_with_network();
    config.spec.runtime.provider = RuntimeProvider::Auto;
    let mut world = World::new();
    let text = world.text(&context(&config, false));
    assert!(
        text.contains("network 'test-net' ready"),
        "auto+docker should succeed: {text}"
    );
}

#[test]
fn cross_cluster_auto_resolved_podman_fails() {
    let mut config = test_config_with_network();
    config.spec.runtime.provider = RuntimeProvider::Auto;
    let mut world = World::new();
    world.binary = "podman".to_owned();
    let result = world.drive(&context(&config, false));
    assert!(result.is_err(), "auto+podman+crossCluster should fail");
    let Err(err) = result else {
        panic!("expected a failure");
    };
    let msg = err.to_string();
    assert!(msg.contains("Docker"), "error should mention Docker: {msg}");
}

#[test]
fn cross_cluster_explicit_docker_passes() {
    let config = test_config_with_network();
    let mut world = World::new();
    let text = world.text(&context(&config, false));
    assert!(
        text.contains("network 'test-net' ready"),
        "explicit docker should succeed: {text}"
    );
}

#[test]
fn no_cross_cluster_podman_allowed() {
    let mut config = test_config();
    config.spec.runtime.provider = RuntimeProvider::Podman;
    let mut world = World::new();
    world.binary = "podman".to_owned();
    let text = world.text(&context(&config, false));
    assert!(
        text.contains("created"),
        "podman without crossCluster should succeed: {text}"
    );
}

#[test]
fn actions_follow_each_other_in_order() {
    let mut config = test_config_with_network();
    config.spec.services = test_config_with_health_check(8080).spec.services;
    let mut world = World::new();
    let text = world.text(&context(&config, false));
    assert_eq!(
        world.calls,
        vec![
            "resolve",
            "lock",
            "load",
            "network create test-net",
            "network inspect test-net",
            "save",
            "kind get clusters",
            "save",
            "kind create cluster hub --name forge-hub on test-net",
            "save",
            "kind get kubeconfig --name forge-hub for hub",
            "docker run test-web example/web:v1 test /cfg /state",
            "probe web 127.0.0.1:8080",
            "save",
            "save",
        ]
    );
    assert_eq!(
        text,
        "network 'test-net' ready\ncreated cluster 'hub' (kind name: forge-hub)\nstarted service 'web' \
         (container: test-web)"
    );
    let st = world.last_saved();
    let hub = state::find_cluster(st, "hub").unwrap();
    assert_eq!((hub.phase, hub.kind_name.as_str()), (ClusterPhase::Running, "forge-hub"));
    assert_eq!(st.runtime.as_deref(), Some("docker"));
    assert_eq!(state::find_service(st, "web").unwrap().health, ServiceHealth::Healthy);
    assert_eq!(state::find_service(st, "web").unwrap().last_observed, NOW);
    let op = st.last_operation.as_ref().unwrap();
    assert!(op.success && op.operation == "up" && op.timestamp == NOW);
    assert_eq!(st.config_digest.as_ref().unwrap().len(), 64);
}

#[test]
fn up_document_lists_everything() {
    let mut config = test_config_with_network();
    config.spec.services.push(service("web", true));
    let mut ctx = context(&config, true);
    ctx.format = OutputFormat::Json;
    let mut world = World::new();
    assert_eq!(
        world.text(&ctx),
        "{\"data\":{\"clusters\":[{\"created\":false,\"dryRun\":true,\"kindName\":\"forge-hub\",\"name\":\"hub\"}],\
         \"network\":{\"dryRun\":true,\"name\":\"test-net\"},\"services\":[{\"containerName\":\"test-web\",\
         \"dryRun\":true,\"name\":\"web\"}]},\"ok\":true}"
    );
}

#[test]
fn failed_export_is_reported_without_a_record() {
    let mut config = test_config();
    config.spec.services.push(service("web", true));
    let mut world = World::failing("kubeconfig");
    assert!(world.drive(&context(&config, false)).is_err());
    assert!(world.last_saved().last_operation.is_none());
    assert!(!world.was_called("docker run"));
}

#[test]
fn dependencies_start_before_dependents() {
    let mut config = base_config(RuntimeProvider::Docker);
    let mut app = service("app", true);
    app.depends_on = vec!["db".to_owned(), "cache".to_owned()];
    let mut cache = service("cache", true);
    cache.depends_on = vec!["db".to_owned()];
    config.spec.services = vec![app, cache, service("db", true)];
    let mut world = World::new();
    world.drive(&context(&config, false)).unwrap();
    let started: Vec<&String> = world.calls.iter().filter(|c| c.starts_with("docker run")).collect();
    assert!(started[0].contains("test-db") && started[1].contains("test-cache") && started[2].contains("test-app"));
}

#[test]
fn success_lists_the_services_in_their_order() {
    let mut config = base_config(RuntimeProvider::Docker);
    let mut app = service("app", true);
    app.depends_on = vec!["db".to_owned()];
    config.spec.services = vec![app, service("idle", false), service("db", true)];
    for dry_run in [false, true] {
        let mut ctx = context(&config, dry_run);
        ctx.format = OutputFormat::Json;
        let shown = World::new().text(&ctx);
        let db = shown.find("test-db").unwrap();
        let app = shown.find("test-app").unwrap();
        assert!(db < app);
        assert!(!shown.contains("idle"));
    }
}

#[test]
fn stacks_and_captures_of_the_state_are_kept() {
    let mut config = test_config_with_network();
    config.spec.services.push(service("web", true));
    let mut world = World::new();
    world.loaded.stacks.push(StackState {
        name: "base".to_owned(),
        cluster: "hub".to_owned(),
        phase: StackPhase::Applied,
        digest: Some("sha256:1".to_owned()),
        timestamp: 5,
        error: None,
    });
    let mut values = StrMap::new();
    values.insert("token".to_owned(), "t".to_owned());
    world.loaded.captures.insert("hub".to_owned(), values);
    world.drive(&context(&config, false)).unwrap();
    assert!(world.saved.len() > 1);
    for saved in &world.saved {
        assert_eq!(saved.stacks.len(), 1);
        assert_eq!(saved.stacks[0].name, "base");
        assert_eq!(saved.stacks[0].timestamp, 5);
        assert_eq!(saved.captures.len(), 1);
        assert_eq!(saved.captures.get("hub").unwrap().get("token").unwrap(), "t");
    }
}

#[test]
fn dependency_cycle_fails_the_service_phase() {
    let mut config = base_config(RuntimeProvider::Docker);
    let mut a = service("a", true);
    a.depends_on = vec!["b".to_owned()];
    let mut b = service("b", true);
    b.depends_on = vec!["a".to_owned()];
    config.spec.services = vec![a, b];
    let mut world = World::new();
    let err = world.drive(&context(&config, false)).unwrap_err();
    assert_eq!(err.to_string(), "validation error: service dependency cycle detected");
    assert!(!world.last_saved().last_operation.as_ref().unwrap().success);
}

#[test]
fn unreachable_health_port_is_unhealthy() {
    let mut config = test_config_with_health_check(8080);
    config.spec.services[0].ports.clear();
    let mut world = World::new();
    assert!(world.drive(&context(&config, false)).is_err());
    assert!(!world.was_called("probe"));
    assert_eq!(
        state::find_service(world.last_saved(), "web").unwrap().phase,
        ServicePhase::Unhealthy
    );
}

#[test]
fn probe_failure_counts_as_unhealthy() {
    let config = test_config_with_health_check(8080);
    let mut world = World::failing("probe");
    let err = world.drive(&context(&config, false)).unwrap_err();
    assert!(matches!(err, ForgeError::Runtime(_)));
}

#[test]
fn host_network_service_is_probed_on_loopback() {
    let mut web = service("web", true);
    web.network = NetworkMode::Host;
    assert_eq!(health_probe_target(&web, 99), Some(("127.0.0.1".to_owned(), 99)));
    assert!(matches!(run_health_check(&web), HealthPlan::Known(ServiceHealth::Unknown)));
}

#[test]
fn healthy_services_do_not_fail() {
    let web = service("web", true);
    assert!(ensure_healthy(&web, "c", ServiceHealth::Healthy).is_ok());
    assert!(ensure_healthy(&web, "c", ServiceHealth::Unknown).is_ok());
    assert!(ensure_healthy(&web, "c", ServiceHealth::Unhealthy).is_err());
}

#[test]
fn service_entry_is_updated_in_place() {
    let mut st = state::empty();
    let web = service("web", true);
    upsert_svc_state(&mut st, &web, "test-web", ServiceHealth::Unhealthy, 1);
    upsert_svc_state(&mut st, &web, "other", ServiceHealth::Healthy, 2);
    assert_eq!(st.services.len(), 1);
    assert_eq!(st.services[0].container_name, "test-web");
    assert_eq!(st.services[0].phase, ServicePhase::Running);
    assert_eq!(st.services[0].last_observed, 2);
}

#[test]
fn renamed_network_loses_range_and_pools() {
    let mut st = state::empty();
    set_network_created(&mut st, "a-net");
    set_network_active(&mut st, "a-net", "10.0.0.0/8");
    st.network.as_mut().unwrap().cluster_pools.push(ClusterPool {
        cluster: "hub".to_owned(),
        range: "10.0.0.1-10.0.0.9".to_owned(),
    });
    set_network_created(&mut st, "a-net");
    assert_eq!(st.network.as_ref().unwrap().cluster_pools.len(), 1);
    set_network_created(&mut st, "b-net");
    let net = st.network.as_ref().unwrap();
    assert_eq!((net.name.as_str(), net.cidr.as_deref(), net.cluster_pools.len()), ("b-net", None, 0));
}

#[test]
fn digest_changes_with_the_configuration() {
    let first = test_config();
    let second = test_config_with_network();
    let mut a = state::empty();
    let mut b = state::empty();
    update_digest(&context(&first, false), &mut a).unwrap();
    update_digest(&context(&second, false), &mut b).unwrap();
    assert_ne!(a.config_digest, b.config_digest);
}

#[test]
fn unexpected_event_fails_the_run() {
    let config = test_config();
    let ctx = context(&config, false);
    let mut up = UpRun::new(&ctx);
    let action = run(&ctx, &mut up, UpEvent::Started, NOW);
    assert!(matches!(action, UpAction::Fail(ForgeError::State(_))));
    assert_eq!(up.phase, UpPhase::Ended);
}
