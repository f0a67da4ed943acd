use forge::config::{
    ClusterSpec, EnvironmentSpec, ForgeConfig, Metadata, NetworkConfig, NodeConfig, RuntimeConfig, StackSpec, StepSpec,
    API_VERSION, KIND,
};
use forge::context::{ForgeContext, OutputFormat, Shown};
use forge::error::ForgeError;
use forge::json::{to_text, Json};
use forge::stack::records::{
    build_network_params, cluster_index, filter_stack_states, record_captures, record_pool_allocation,
    set_stack_failed, stack_digest, stack_drifted, upsert_stack_state, PoolAllocation,
};
use forge::stack::render::{
    render_apply_text, render_status_json, render_status_text, step_description, step_warning, ApplyResult,
    PlannedStep, StatusRow,
};
use forge::stack::{
    dispatch, ensure_apply_success, handle_list, lookup_cluster, resolve_stacks, ApplyOutcome, RunPhase, StackAction,
    StackCommand, StackEvent, StackRun,
};
use forge::state::{self, ClusterPool, ForgeState, NetworkPhase, NetworkState, StackPhase, StackState};
use forge::strmap::StrMap;

const NOW: u64 = 1_700_000_000;

fn map_of<V>(entries: Vec<(String, V)>) -> StrMap<V> {
    let mut map = StrMap::new();
    for (key, value) in entries {
        map.insert(key, value);
    }
    map
}

fn test_stack() -> StackSpec {
    StackSpec {
        description: Some("Base stack".to_owned()),
        steps: vec![
            StepSpec::Manifest { path: "crds.yaml".to_owned() },
            StepSpec::Wait {
                resource: "deployment/controller".to_owned(),
                condition: "available".to_owned(),
                timeout: "60s".to_owned(),
                namespace: None,
            },
        ],
    }
}

fn test_config() -> ForgeConfig {
    ForgeConfig {
        api_version: API_VERSION.to_owned(),
        kind: KIND.to_owned(),
        metadata: Metadata { name: "test".to_owned() },
        spec: EnvironmentSpec {
            runtime: RuntimeConfig::default(),
            network: None,
            clusters: vec![ClusterSpec {
                name: "hub".to_owned(),
                nodes: NodeConfig::default(),
                ports: Vec::new(),
                stacks: vec!["base".to_owned()],
                properties: StrMap::new(),
            }],
            services: Vec::new(),
            certificates: None,
            stacks: map_of(vec![("base".to_owned(), test_stack())]),
        },
    }
}

fn context(config: &ForgeConfig, format: OutputFormat) -> ForgeContext<'_> {
    ForgeContext {
        config,
        config_dir: "/tmp".to_owned(),
        state_dir: "/tmp/state".to_owned(),
        format,
        dry_run: false,
    }
}

fn plan_hub() -> StackCommand {
    StackCommand::Plan { cluster: "hub".to_owned(), stack: None }
}

fn apply_hub() -> StackCommand {
    StackCommand::Apply { cluster: "hub".to_owned(), stack: None }
}

fn joined(shown: Shown) -> String {
    match shown {
        Shown::Lines(lines) => lines.join("\n"),
        Shown::Document(value) => to_text(&value),
    }
}

/// Steps as a plan without templates and repetitions has them.
fn plain_steps(spec: &StackSpec) -> Vec<PlannedStep> {
    spec.steps
        .iter()
        .map(|step| PlannedStep {
            step: match step {
                StepSpec::Manifest { path } => StepSpec::Manifest { path: path.clone() },
                StepSpec::Wait { resource, condition, timeout, .. } => StepSpec::Wait {
                    resource: resource.clone(),
                    condition: condition.clone(),
                    timeout: timeout.clone(),
                    namespace: None,
                },
                StepSpec::Exec { command, .. } => {
                    StepSpec::Exec { command: command.clone(), env: StrMap::new() }
                }
                other => panic!("unexpected step {other:?}"),
            },
            item: None,
        })
        .collect()
}

/// What the outside answers.
struct World {
    planned: Vec<Result<Vec<PlannedStep>, ForgeError>>,
    applied: Vec<Result<ApplyOutcome, ForgeError>>,
    loaded: Option<ForgeState>,
    calls: Vec<String>,
    saved: Vec<ForgeState>,
}

impl World {
    fn new() -> World {
        World { planned: Vec::new(), applied: Vec::new(), loaded: None, calls: Vec::new(), saved: Vec::new() }
    }

    fn drive(&mut self, ctx: &ForgeContext<'_>, cmd: &StackCommand) -> Result<String, ForgeError> {
        let mut run = StackRun::new();
        let mut event = StackEvent::Begin;
        loop {
            event = match dispatch(ctx, cmd, &mut run, event, NOW) {
                StackAction::Lock => {
                    self.calls.push("lock".to_owned());
                    StackEvent::Locked
                }
                StackAction::Load => {
                    self.calls.push("load".to_owned());
                    StackEvent::Loaded(self.loaded.take().unwrap_or_else(state::empty))
                }
                StackAction::Plan { stack, network } => {
                    self.calls.push(format!("plan {stack} {}", network.is_some()));
                    match self.planned.remove(0) {
                        Ok(steps) => StackEvent::Planned(steps),
                        Err(error) => StackEvent::Failed(error),
                    }
                }
                StackAction::Apply { stack, network } => {
                    self.calls.push(format!("apply {stack} {}", network.is_some()));
                    StackEvent::Applied(self.applied.remove(0))
                }
                StackAction::Save => {
                    self.calls.push("save".to_owned());
                    self.saved.push(run.state.clone());
                    StackEvent::Saved
                }
                StackAction::Show(shown) => return Ok(joined(shown)),
                StackAction::Fail(error) => return Err(error),
            };
        }
    }
}

fn outcome(steps: usize) -> ApplyOutcome {
    ApplyOutcome { steps_executed: steps, pool_allocation: None, captures: StrMap::new() }
}

#[test]
fn handle_list_renders_configured_stacks() {
    let config = test_config();
    let text = joined(handle_list(&context(&config, OutputFormat::Text)));
    assert!(text.contains("Stacks: 1"), "should show stack count: {text}");
    assert!(text.contains("base (2 steps)"), "should list base stack: {text}");
    let json = joined(handle_list(&context(&config, OutputFormat::Json)));
    assert_eq!(
        json,
        "{\"data\":{\"stacks\":[{\"description\":\"Base stack\",\"name\":\"base\",\"steps\":2}]},\"ok\":true}"
    );
}

#[test]
fn handle_plan_renders_step_descriptions() {
    let config = test_config();
    let mut world = World::new();
    world.planned.push(Ok(plain_steps(&test_stack())));
    let text = world.drive(&context(&config, OutputFormat::Text), &plan_hub()).unwrap();
    assert!(text.contains("Stack: base -> hub"), "should show stack target: {text}");
    assert!(text.contains("[manifest]"), "should describe manifest step: {text}");
    assert!(text.contains("[wait]"), "should describe wait step: {text}");
    assert_eq!(
        text,
        "Stack: base -> hub\n  1. [manifest] apply crds.yaml\n  2. [wait] wait deployment/controller"
    );
}

fn manifest_stack(path: &str) -> StackSpec {
    StackSpec { description: None, steps: vec![StepSpec::Manifest { path: path.to_owned() }] }
}

/// Build a config whose cluster references two stacks in order.
fn two_stack_config() -> ForgeConfig {
    let mut config = test_config();
    config.spec.stacks = map_of(vec![
        ("a-first".to_owned(), manifest_stack("a.yaml")),
        ("b-second".to_owned(), manifest_stack("b.yaml")),
    ]);
    config.spec.clusters[0].stacks = vec!["a-first".to_owned(), "b-second".to_owned()];
    config
}

#[test]
fn apply_stacks_stops_after_first_failed_stack() {
    let config = two_stack_config();
    let ctx = context(&config, OutputFormat::Text);
    let cluster = config.spec.clusters.first().unwrap();
    assert_eq!(resolve_stacks(&ctx, cluster, None).unwrap().len(), 2);
    let mut world = World::new();
    world.applied.push(Err(ForgeError::Command {
        program: "kubectl".to_owned(),
        message: "apply failed".to_owned(),
    }));
    let err = world.drive(&ctx, &apply_hub()).unwrap_err();
    assert_eq!(
        world.calls,
        vec!["lock", "load", "apply a-first false", "save"],
        "must stop after the failed stack"
    );
    let st = &world.saved[0];
    assert!(
        state::find_stack(st, "b-second", "hub").is_none(),
        "unattempted stack must not gain state"
    );
    let entry = state::find_stack(st, "a-first", "hub").unwrap();
    assert_eq!(entry.phase, StackPhase::Failed);
    assert_eq!(entry.error.as_deref(), Some("command failed: kubectl: apply failed"));
    assert_eq!(
        err.to_string(),
        "command failed: stack apply a-first -> hub: command failed: kubectl: apply failed"
    );
}

#[test]
fn failed_apply_surfaces_the_underlying_error() {
    let results = vec![ApplyResult {
        name: "edge-gateway".to_owned(),
        steps_executed: 0,
        success: false,
        error: Some("deployment did not become available".to_owned()),
    }];
    let Err(error) = ensure_apply_success("east-edge", &results) else {
        panic!("expected a failure");
    };
    let message = error.to_string();
    assert!(
        message.contains("edge-gateway"),
        "error must identify the stack: {message}"
    );
    assert!(
        message.contains("east-edge"),
        "error must identify the cluster: {message}"
    );
    assert!(
        message.contains("deployment did not become available"),
        "error must retain the step failure: {message}"
    );
}

#[test]
fn failed_stack_state_is_retryable_without_manual_deletion() {
    let mut state = state::empty();
    set_stack_failed(&mut state, "edge-gateway", "east-edge", Some("old"), "first failure", NOW);
    upsert_stack_state(
        &mut state,
        "edge-gateway",
        "east-edge",
        StackPhase::Applying,
        Some("new"),
        NOW,
    );
    let entry = state::find_stack(&state, "edge-gateway", "east-edge").unwrap();
    assert_eq!(entry.phase, StackPhase::Applying);
    assert_eq!(entry.digest.as_deref(), Some("new"));
    assert!(entry.error.is_none(), "retry must clear the previous failure");
}

/// Build an applied stack state entry for drift tests.
fn applied_state_entry(name: &str, digest: Option<String>) -> StackState {
    StackState {
        name: name.to_owned(),
        cluster: "hub".to_owned(),
        phase: StackPhase::Applied,
        digest,
        timestamp: 0,
        error: None,
    }
}

#[test]
fn stack_drifted_detects_spec_change() {
    let config = test_config();
    let ctx = context(&config, OutputFormat::Text);
    let stale = applied_state_entry("base", Some("0".repeat(64)));
    assert_eq!(stack_drifted(&ctx, &stale), Some(true), "changed spec must drift");
    let spec = config.spec.stacks.get("base").unwrap();
    let fresh = applied_state_entry("base", stack_digest(spec).ok());
    assert_eq!(stack_drifted(&ctx, &fresh), Some(false), "matching spec must not drift");
    let unknown = applied_state_entry("base", None);
    assert_eq!(stack_drifted(&ctx, &unknown), None, "missing digest is indeterminate");
    let removed = applied_state_entry("gone", Some("0".repeat(64)));
    assert_eq!(
        stack_drifted(&ctx, &removed),
        None,
        "unconfigured stack is indeterminate"
    );
}

#[test]
fn status_text_marks_drifted_stack() {
    let entry = applied_state_entry("base", Some("0".repeat(64)));
    let rows = vec![StatusRow { entry: &entry, drifted: Some(true) }];
    let text = render_status_text(&rows).join("\n");
    assert!(text.contains("hub/base"), "should list the stack: {text}");
    assert!(text.contains("(drifted)"), "should flag drift: {text}");
    assert_eq!(text, "Stacks: 1\n  hub/base: applied (drifted)");
}

#[test]
fn status_json_reports_drift_field() {
    let entry = applied_state_entry("base", Some("0".repeat(64)));
    let rows = vec![StatusRow { entry: &entry, drifted: Some(true) }];
    let text = to_text(&render_status_json(&rows));
    let parsed: serde_json::Value = serde_json::from_str(&text).unwrap();
    let drifted = parsed.pointer("/data/stacks/0/drifted").unwrap();
    assert_eq!(drifted, &serde_json::Value::Bool(true), "JSON must expose drift");
    assert_eq!(parsed.to_string(), text);
}

#[test]
fn build_network_params_returns_none_without_cross_cluster() {
    let config = test_config();
    let ctx = context(&config, OutputFormat::Text);
    let cluster = config.spec.clusters.first().unwrap();
    let st = state::empty();
    let result = build_network_params(&ctx, cluster, &st);
    assert!(result.is_none(), "should return None without crossCluster");
}

#[test]
fn build_network_params_returns_some_with_cross_cluster() {
    let mut config = test_config();
    config.spec.network = Some(NetworkConfig { cross_cluster: true, dns_zone: None });
    let ctx = context(&config, OutputFormat::Text);
    let cluster = config.spec.clusters.first().unwrap();
    let st = state::empty();
    let result = build_network_params(&ctx, cluster, &st);
    assert!(result.is_some(), "should return Some with crossCluster");
    let params = result.unwrap();
    assert_eq!(params.dns_zone, "forge.test", "should default to forge.test");
    assert_eq!(params.cluster_index, 0, "hub should be index 0");
    assert_eq!(cluster_index(&ctx, "elsewhere"), 0);
}

#[test]
fn record_pool_allocation_initialises_missing_network_state() {
    let mut st = state::empty();
    let allocation = PoolAllocation {
        cidr: "172.18.0.0/16".to_owned(),
        range: "172.18.255.231-172.18.255.250".to_owned(),
    };
    record_pool_allocation(&mut st, "test-net", "hub", &allocation);
    let network = st.network.as_ref().unwrap();
    assert_eq!(network.name, "test-net", "network state must carry the network name");
    assert_eq!(network.phase, NetworkPhase::Active);
    assert_eq!(network.cidr.as_deref(), Some("172.18.0.0/16"));
    let pool = network.cluster_pools.first().unwrap();
    assert_eq!(pool.cluster, "hub");
    assert_eq!(
        pool.range, allocation.range,
        "allocation must be persisted, not dropped"
    );
}

#[test]
fn record_pool_allocation_replaces_stale_network_allocations() {
    let mut st = state::empty();
    st.network = Some(NetworkState {
        name: "test-net".to_owned(),
        phase: NetworkPhase::Active,
        cidr: Some("172.19.0.0/16".to_owned()),
        cluster_pools: vec![ClusterPool {
            cluster: "spoke".to_owned(),
            range: "172.19.255.211-172.19.255.230".to_owned(),
        }],
    });
    let allocation = PoolAllocation {
        cidr: "172.18.0.0/16".to_owned(),
        range: "172.18.255.231-172.18.255.250".to_owned(),
    };
    record_pool_allocation(&mut st, "test-net", "hub", &allocation);
    let network = st.network.as_ref().unwrap();
    assert_eq!(network.cidr.as_deref(), Some("172.18.0.0/16"));
    assert_eq!(network.cluster_pools.len(), 1);
    let pool = network.cluster_pools.first().unwrap();
    assert_eq!(pool.cluster, "hub");
    assert_eq!(pool.range, allocation.range);
}

#[test]
fn record_pool_allocation_updates_existing_cluster_range() {
    let mut st = state::empty();
    st.network = Some(NetworkState {
        name: "test-net".to_owned(),
        phase: NetworkPhase::Active,
        cidr: Some("172.18.0.0/16".to_owned()),
        cluster_pools: vec![ClusterPool {
            cluster: "hub".to_owned(),
            range: "172.18.255.200-172.18.255.219".to_owned(),
        }],
    });
    let allocation = PoolAllocation {
        cidr: "172.18.0.0/16".to_owned(),
        range: "172.18.255.231-172.18.255.250".to_owned(),
    };
    record_pool_allocation(&mut st, "test-net", "hub", &allocation);
    let network = st.network.as_ref().unwrap();
    assert_eq!(network.cluster_pools.len(), 1);
    let pool = network.cluster_pools.first().unwrap();
    assert_eq!(pool.range, allocation.range);
}

#[test]
fn recording_an_allocation_again_changes_nothing() {
    let mut st = state::empty();
    let allocation = PoolAllocation {
        cidr: "172.18.0.0/16".to_owned(),
        range: "172.18.255.231-172.18.255.250".to_owned(),
    };
    for _ in 0..2 {
        record_pool_allocation(&mut st, "test-net", "spoke", &allocation);
        record_pool_allocation(&mut st, "test-net", "hub", &allocation);
    }
    let pools = &st.network.as_ref().unwrap().cluster_pools;
    assert_eq!(pools.len(), 2);
    assert_eq!(pools[0].cluster, "spoke");
    assert_eq!(pools[1].cluster, "hub");
    assert_eq!(pools[1].range, allocation.range);
}

/// The steps that a repetition over two workers expands to.
fn expanded(items: &[&str]) -> Vec<PlannedStep> {
    items
        .iter()
        .map(|item| PlannedStep {
            step: StepSpec::Manifest { path: format!("{item}.yaml") },
            item: Some(Json::String((*item).to_owned())),
        })
        .collect()
}

#[test]
fn plan_shows_expanded_steps_with_their_items() {
    let config = test_config();
    let mut world = World::new();
    world.planned.push(Ok(expanded(&["w1", "w2"])));
    let text = world.drive(&context(&config, OutputFormat::Text), &plan_hub()).unwrap();
    assert!(text.contains("apply w1.yaml"), "should render w1: {text}");
    assert!(text.contains("apply w2.yaml"), "should render w2: {text}");
    assert!(text.contains("  2. [manifest] apply w2.yaml (item \"w2\")"), "{text}");
    assert!(!text.contains("for-each"), "for-each must be expanded: {text}");
}

#[test]
fn plan_failure_is_reported() {
    let config = test_config();
    let mut world = World::new();
    world.planned.push(Err(ForgeError::Config("unknown property".to_owned())));
    let result = world.drive(&context(&config, OutputFormat::Text), &plan_hub());
    assert!(result.is_err(), "unknown property must surface as a plan error");
    assert_eq!(world.calls, vec!["load", "plan base false"]);
}

#[test]
fn plan_json_renders_expanded_steps() {
    let config = test_config();
    let mut world = World::new();
    world.planned.push(Ok(expanded(&["w1"])));
    let text = world.drive(&context(&config, OutputFormat::Json), &plan_hub()).unwrap();
    let parsed: serde_json::Value = serde_json::from_str(&text).unwrap();
    let desc = parsed
        .pointer("/data/stacks/0/steps/0/description")
        .and_then(serde_json::Value::as_str);
    assert_eq!(desc, Some("apply w1.yaml"), "JSON plan must render the expanded step");
    let item = parsed.pointer("/data/stacks/0/steps/0/item");
    assert_eq!(
        item,
        Some(&serde_json::Value::String("w1".to_owned())),
        "JSON plan must record the item"
    );
}

#[test]
fn successful_apply_is_recorded_and_shown() {
    let mut config = two_stack_config();
    config.spec.network = Some(NetworkConfig { cross_cluster: true, dns_zone: Some("lab.test".to_owned()) });
    let mut world = World::new();
    world.applied.push(Ok(ApplyOutcome {
        steps_executed: 1,
        pool_allocation: Some(PoolAllocation { cidr: "10.0.0.0/8".to_owned(), range: "10.0.0.1-10.0.0.9".to_owned() }),
        captures: map_of(vec![("ip".to_owned(), "10.0.0.1".to_owned())]),
    }));
    world.applied.push(Ok(outcome(1)));
    let text = world.drive(&context(&config, OutputFormat::Text), &apply_hub()).unwrap();
    assert_eq!(text, "applied stack a-first -> hub (1 steps)\napplied stack b-second -> hub (1 steps)");
    assert_eq!(
        world.calls,
        vec!["lock", "load", "apply a-first true", "apply b-second true", "save"]
    );
    let st = &world.saved[0];
    assert_eq!(state::find_stack(st, "b-second", "hub").unwrap().phase, StackPhase::Applied);
    assert_eq!(state::find_cluster_pool(st, "hub").as_deref(), Some("10.0.0.1-10.0.0.9"));
    assert_eq!(st.network.as_ref().unwrap().name, "test-net");
    assert_eq!(st.captures.get("hub").unwrap().get("ip").map(String::as_str), Some("10.0.0.1"));
}

#[test]
fn dry_run_of_apply_only_plans() {
    let config = test_config();
    let mut ctx = context(&config, OutputFormat::Text);
    ctx.dry_run = true;
    let mut world = World::new();
    world.planned.push(Ok(plain_steps(&test_stack())));
    let text = world.drive(&ctx, &apply_hub()).unwrap();
    assert!(text.contains("Stack: base -> hub"));
    assert_eq!(world.calls, vec!["load", "plan base false"]);
    assert!(world.saved.is_empty());
}

#[test]
fn unknown_cluster_and_stack_are_reported() {
    let config = test_config();
    let ctx = context(&config, OutputFormat::Text);
    assert_eq!(
        lookup_cluster(&ctx, "nope").unwrap_err().to_string(),
        "config error: cluster 'nope' not found"
    );
    let mut world = World::new();
    let cmd = StackCommand::Apply { cluster: "hub".to_owned(), stack: Some("nope".to_owned()) };
    assert_eq!(
        world.drive(&ctx, &cmd).unwrap_err().to_string(),
        "config error: stack 'nope' not found"
    );
    assert!(world.calls.is_empty());
}

#[test]
fn one_stack_can_be_selected() {
    let config = two_stack_config();
    let ctx = context(&config, OutputFormat::Text);
    let mut world = World::new();
    world.applied.push(Ok(outcome(1)));
    let cmd = StackCommand::Apply { cluster: "hub".to_owned(), stack: Some("b-second".to_owned()) };
    let text = world.drive(&ctx, &cmd).unwrap();
    assert_eq!(text, "applied stack b-second -> hub (1 steps)");
}

#[test]
fn status_is_filtered_by_cluster() {
    let config = test_config();
    let mut st = state::empty();
    st.stacks.push(applied_state_entry("base", None));
    let mut other = applied_state_entry("base", None);
    other.cluster = "spoke".to_owned();
    st.stacks.push(other);
    assert_eq!(filter_stack_states(&st, None).len(), 2);
    assert_eq!(filter_stack_states(&st, Some("spoke")).len(), 1);
    let mut world = World::new();
    world.loaded = Some(st);
    let cmd = StackCommand::Status { cluster: Some("spoke".to_owned()) };
    let text = world.drive(&context(&config, OutputFormat::Text), &cmd).unwrap();
    assert_eq!(text, "Stacks: 1\n  spoke/base: applied");
}

#[test]
fn status_json_has_every_field() {
    let entry = applied_state_entry("base", None);
    let rows = vec![StatusRow { entry: &entry, drifted: None }];
    assert_eq!(
        to_text(&render_status_json(&rows)),
        "{\"data\":{\"stacks\":[{\"cluster\":\"hub\",\"digest\":null,\"drifted\":null,\"name\":\"base\",\
         \"phase\":\"applied\",\"timestamp\":0}]},\"ok\":true}"
    );
}

#[test]
fn digest_is_the_sha256_of_the_compact_json() {
    let spec = StackSpec { description: None, steps: vec![StepSpec::Manifest { path: "a.yaml".to_owned() }] };
    let text = "{\"description\":null,\"steps\":[{\"type\":\"manifest\",\"path\":\"a.yaml\"}]}";
    let hash = <sha2::Sha256 as sha2::Digest>::digest(text.as_bytes());
    assert_eq!(stack_digest(&spec).unwrap(), format!("{hash:x}"));
}

#[test]
fn captures_are_merged_by_key() {
    let mut st = state::empty();
    record_captures(&mut st, "hub", &map_of(vec![("b".to_owned(), "1".to_owned()), ("a".to_owned(), "2".to_owned())]));
    record_captures(&mut st, "hub", &map_of(vec![("b".to_owned(), "3".to_owned())]));
    record_captures(&mut st, "spoke", &StrMap::new());
    let hub = st.captures.get("hub").unwrap();
    assert_eq!(hub.get("a").map(String::as_str), Some("2"));
    assert_eq!(hub.get("b").map(String::as_str), Some("3"));
    assert!(!st.captures.contains_key("spoke"));
}

#[test]
fn failed_result_line_is_marked() {
    let results = vec![ApplyResult { name: "x".to_owned(), steps_executed: 0, success: false, error: None }];
    assert_eq!(render_apply_text("hub", &results), vec!["FAILED stack x -> hub (0 steps)".to_owned()]);
    assert_eq!(
        ensure_apply_success("hub", &results).unwrap_err().to_string(),
        "command failed: stack apply x -> hub: stack step failed"
    );
}

#[test]
fn every_step_has_a_description() {
    let some = |s: &str| s.to_owned();
    let cases: Vec<(StepSpec, &str)> = vec![
        (StepSpec::Url { url: some("https://x"), sha256: some("") }, "download https://x"),
        (StepSpec::Manifest { path: some("a") }, "apply a"),
        (StepSpec::Kustomize { path: some("a") }, "kustomize a"),
        (
            StepSpec::Helm {
                release: some("r"),
                chart: some("c"),
                version: some("1"),
                namespace: None,
                values: StrMap::new(),
            },
            "helm r (c)",
        ),
        (
            StepSpec::Deployment { name: some("n"), image: some("i"), replicas: 1, namespace: None },
            "deploy n (i)",
        ),
        (StepSpec::Service { name: some("n"), port: 8080, namespace: None }, "service n:8080"),
        (
            StepSpec::Wait { resource: some("r"), condition: some("c"), timeout: some("1s"), namespace: None },
            "wait r",
        ),
        (StepSpec::Exec { command: vec![some("true"), some("x")], env: StrMap::new() }, "exec true"),
        (StepSpec::Exec { command: Vec::new(), env: StrMap::new() }, "exec <empty>"),
        (
            StepSpec::ForEach { property: some("p"), steps: vec![StepSpec::Manifest { path: some("a") }] },
            "for-each p (1 steps)",
        ),
        (StepSpec::MetallbAutoPool { name: some("n") }, "metallb pool n"),
        (StepSpec::CoreDnsForward { zone: some("z.t"), upstreams: Vec::new() }, "coredns forward z.t"),
        (
            StepSpec::Capture {
                resource: some("svc/web"),
                namespace: None,
                jsonpath: some("{.x}"),
                key: some("k"),
                timeout: some("1s"),
                interval: some("1s"),
            },
            "capture k from svc/web",
        ),
        (StepSpec::TemplateManifest { path: some("a") }, "template-apply a"),
        (StepSpec::TemplateFile { source: some("a"), target: some("b") }, "template-file a -> b"),
    ];
    for (step, expected) in &cases {
        assert_eq!(&step_description(step), expected);
        assert_eq!(step_warning(step).is_some(), matches!(step, StepSpec::Exec { .. }));
    }
}

#[test]
fn exec_steps_are_planned_with_a_warning() {
    let mut config = test_config();
    let stack = StackSpec {
        description: None,
        steps: vec![StepSpec::Exec { command: vec!["true".to_owned()], env: StrMap::new() }],
    };
    let steps = plain_steps(&stack);
    config.spec.stacks = map_of(vec![("base".to_owned(), stack)]);
    let mut world = World::new();
    world.planned.push(Ok(steps));
    let text = world.drive(&context(&config, OutputFormat::Text), &plan_hub()).unwrap();
    assert_eq!(
        text,
        "Stack: base -> hub\n  1. [exec] exec true\n     WARNING: exec is an explicit command escape hatch"
    );
}

#[test]
fn unexpected_stack_event_fails_the_command() {
    let config = test_config();
    let ctx = context(&config, OutputFormat::Text);
    let mut run = StackRun::new();
    let action = dispatch(&ctx, &apply_hub(), &mut run, StackEvent::Saved, NOW);
    assert!(matches!(action, StackAction::Fail(ForgeError::State(_))));
    assert_eq!(run.phase, RunPhase::Ended);
}
