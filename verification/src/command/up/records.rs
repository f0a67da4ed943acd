//! What the state records of the network, the clusters and the services.

use vstd::prelude::*;
use crate::config::document::{config_json, config_value};
use crate::config::validate::services::publishes_tcp;
use crate::config::{ForgeConfig, NetworkMode, PortMapping, ServiceSpec};
use crate::context::ForgeContext;
use crate::digest::{digest_text, text_digest, MESSAGE_LIMIT};
use crate::error::{ErrorView, ForgeError};
use crate::ip::{ip_value, parse_ip, IpAddr};
use crate::json::{compact, to_text};
use crate::naming::{context_of, kubectl_context};
use crate::numeral::{decimal, to_decimal};
use crate::state::{
    cluster_position, cluster_views, find_cluster_index, find_service_index, pool_views,
    service_position, service_views, ClusterPhase, ClusterState, ClusterView, ForgeState,
    NetworkPhase, NetworkState, NetworkView, ServiceHealth, ServicePhase, ServiceState, ServiceView,
    StateView,
};
use crate::text::{borrow_text, byte_len, join6, join2, opt_str, opt_text, same_text};

verus! {

// ---------------------------------------------------------------
// Network
// ---------------------------------------------------------------

/// A network that exists but whose address range is not known yet. Renaming
/// drops the pools and the range of the old network.
pub open spec fn network_created(network: Option<NetworkView>, name: Seq<char>) -> NetworkView {
    match network {
        Some(net) => if net.name != name {
            NetworkView { name, phase: NetworkPhase::Active, cidr: None, pools: Seq::empty() }
        } else {
            NetworkView { phase: NetworkPhase::Active, ..net }
        },
        None => NetworkView { name, phase: NetworkPhase::Active, cidr: None, pools: Seq::empty() },
    }
}

/// Record a network that exists but whose CIDR is not known yet.
///
/// Renaming the network invalidates any pool allocation derived from the old
/// one, so those are dropped alongside the stale CIDR.
pub fn set_network_created(state: &mut ForgeState, name: &str)
    ensures
        final(state)@ == (StateView {
            network: Some(network_created(old(state)@.network, name@)),
            ..old(state)@
        }),
{
    if let Some(ref mut net) = state.network {
        if !same_text(&net.name, name) {
            net.cluster_pools = Vec::new();
            assert(pool_views(net.cluster_pools@) =~= Seq::empty());
            net.name = name.to_owned();
            net.cidr = None;
        }
        net.phase = NetworkPhase::Active;
        return;
    }
    let fresh = NetworkState {
        name: name.to_owned(),
        phase: NetworkPhase::Active,
        cidr: None,
        cluster_pools: Vec::new(),
    };
    assert(pool_views(fresh.cluster_pools@) =~= Seq::empty());
    state.network = Some(fresh);
}

/// A network with its address range. The pools are kept only if the network
/// and the range are those they were computed from.
pub open spec fn network_active(
    network: Option<NetworkView>,
    name: Seq<char>,
    cidr: Seq<char>,
) -> NetworkView {
    NetworkView {
        name,
        phase: NetworkPhase::Active,
        cidr: Some(cidr),
        pools: match network {
            Some(net) => if net.name == name && net.cidr == Some(cidr) {
                net.pools
            } else {
                Seq::empty()
            },
            None => Seq::empty(),
        },
    }
}

/// Record the live network identity, preserving only compatible pools.
pub fn set_network_active(state: &mut ForgeState, name: &str, cidr: &str)
    ensures
        final(state)@ == (StateView {
            network: Some(network_active(old(state)@.network, name@, cidr@)),
            ..old(state)@
        }),
{
    if let Some(ref mut net) = state.network {
        let same_cidr = match &net.cidr {
            Some(known) => same_text(known, cidr),
            None => false,
        };
        let network_changed = !same_text(&net.name, name) || !same_cidr;
        if network_changed {
            net.cluster_pools = Vec::new();
            assert(pool_views(net.cluster_pools@) =~= Seq::empty());
        }
        net.name = name.to_owned();
        net.phase = NetworkPhase::Active;
        net.cidr = Some(cidr.to_owned());
        return;
    }
    let fresh = NetworkState {
        name: name.to_owned(),
        phase: NetworkPhase::Active,
        cidr: Some(cidr.to_owned()),
        cluster_pools: Vec::new(),
    };
    assert(pool_views(fresh.cluster_pools@) =~= Seq::empty());
    state.network = Some(fresh);
}

/// The pools that stay recorded over a run are those of the same network and
/// range: looking up the network and then its range keeps the pools exactly
/// when neither changed.
pub proof fn law_pools_survive_only_on_the_same_network(
    network: NetworkView,
    name: Seq<char>,
    cidr: Seq<char>,
)
    ensures
        ({
            let after = network_active(Some(network_created(Some(network), name)), name, cidr);
            if network.name == name && network.cidr == Some(cidr) {
                after.pools == network.pools
            } else {
                after.pools == Seq::<crate::state::PoolView>::empty()
            }
        }),
{
}

// ---------------------------------------------------------------
// Clusters
// ---------------------------------------------------------------

/// The clusters with the entry of one written. An entry that has another KIND
/// name gets the new one and its context.
pub open spec fn with_cluster(
    clusters: Seq<ClusterView>,
    name: Seq<char>,
    kind_name: Seq<char>,
    phase: ClusterPhase,
) -> Seq<ClusterView> {
    match cluster_position(clusters, name, 0) {
        Some(i) => clusters.update(
            i,
            if clusters[i].kind_name == kind_name {
                ClusterView { phase, ..clusters[i] }
            } else {
                ClusterView { phase, kind_name, context: context_of(kind_name), ..clusters[i] }
            },
        ),
        None => clusters.push(
            ClusterView { name, kind_name, context: context_of(kind_name), phase },
        ),
    }
}

/// Ensure a cluster has an entry in state with the given phase.
///
/// An existing entry also has its `kind_name` and `context` refreshed:
/// after a `clusterPrefix` change the freshly created KIND cluster has
/// a new name, and keeping the stale one would make `forge down`
/// delete the wrong cluster and orphan the live one.
pub fn ensure_state_entry(state: &mut ForgeState, name: &str, kind_name: &str, phase: ClusterPhase)
    ensures
        final(state)@ == (StateView {
            clusters: with_cluster(old(state)@.clusters, name@, kind_name@, phase),
            ..old(state)@
        }),
{
    let ghost before = state.clusters@;
    match find_cluster_index(&state.clusters, name) {
        Some(i) => {
            state.clusters[i].phase = phase;
            if !same_text(&state.clusters[i].kind_name, kind_name) {
                state.clusters[i].kind_name = kind_name.to_owned();
                state.clusters[i].context = kubectl_context(kind_name);
            }
            assert(cluster_views(state.clusters@) =~= with_cluster(
                cluster_views(before),
                name@,
                kind_name@,
                phase,
            ));
        },
        None => {
            state.clusters.push(
                ClusterState {
                    name: name.to_owned(),
                    kind_name: kind_name.to_owned(),
                    context: kubectl_context(kind_name),
                    phase,
                },
            );
            assert(cluster_views(state.clusters@) =~= with_cluster(
                cluster_views(before),
                name@,
                kind_name@,
                phase,
            ));
        },
    }
}

proof fn lemma_cluster_position(clusters: Seq<ClusterView>, name: Seq<char>, i: int)
    requires
        0 <= i <= clusters.len(),
    ensures
        match cluster_position(clusters, name, i) {
            Some(k) => i <= k < clusters.len() && clusters[k].name == name && forall|m: int|
                i <= m < k ==> (#[trigger] clusters[m]).name != name,
            None => forall|m: int|
                i <= m < clusters.len() ==> (#[trigger] clusters[m]).name != name,
        },
    decreases clusters.len() - i,
{
    if i < clusters.len() {
        lemma_cluster_position(clusters, name, i + 1);
    }
}

/// Writing the entry of a cluster makes the state say of that cluster what was
/// written, with the KIND name it has now, and of no other cluster anything
/// else.
pub proof fn law_cluster_entry_follows_the_kind_name(
    clusters: Seq<ClusterView>,
    name: Seq<char>,
    kind_name: Seq<char>,
    phase: ClusterPhase,
    other: Seq<char>,
)
    ensures
        ({
            let after = with_cluster(clusters, name, kind_name, phase);
            let at = cluster_position(after, name, 0);
            &&& at is Some
            &&& after[at->0].phase == phase
            &&& after[at->0].kind_name == kind_name
            &&& other != name ==> {
                let old_at = cluster_position(clusters, other, 0);
                &&& cluster_position(after, other, 0) == old_at
                &&& old_at is Some ==> after[old_at->0] == clusters[old_at->0]
            }
        }),
{
    let after = with_cluster(clusters, name, kind_name, phase);
    lemma_cluster_position(clusters, name, 0);
    lemma_cluster_position(clusters, other, 0);
    lemma_cluster_position(after, name, 0);
    lemma_cluster_position(after, other, 0);
    let at = cluster_position(clusters, name, 0);
    assert forall|m: int| 0 <= m < clusters.len() implies (#[trigger] after[m]).name
        == clusters[m].name && (at != Some(m) ==> after[m] == clusters[m]) by {
    }
    match at {
        Some(k) => {
            assert(after[k].name == name);
            let m = cluster_position(after, name, 0)->0;
            if m < k {
                assert(clusters[m].name == name);
            }
        },
        None => {
            assert(after[clusters.len() as int].name == name);
            let m = cluster_position(after, name, 0)->0;
            if m < clusters.len() {
                assert(clusters[m].name == name);
            }
        },
    }
    if other != name {
        let old_at = cluster_position(clusters, other, 0);
        let new_at = cluster_position(after, other, 0);
        if let Some(k) = old_at {
            assert(after[k].name == other);
            let m = new_at->0;
            if m < k {
                assert(clusters[m].name == other);
            }
        }
        if let Some(m) = new_at {
            if m < clusters.len() {
                assert(clusters[m].name == other);
            }
        }
    }
}

// ---------------------------------------------------------------
// Services
// ---------------------------------------------------------------

/// The phase of a service with a given health.
pub open spec fn phase_for(health: ServiceHealth) -> ServicePhase {
    match health {
        ServiceHealth::Unhealthy => ServicePhase::Unhealthy,
        ServiceHealth::Unknown => ServicePhase::Running,
        ServiceHealth::Healthy => ServicePhase::Running,
    }
}

/// The services with the entry of one written.
pub open spec fn with_service(
    services: Seq<ServiceView>,
    svc: ServiceSpec,
    container: Seq<char>,
    health: ServiceHealth,
    now: u64,
) -> Seq<ServiceView> {
    match service_position(services, svc.name@, 0) {
        Some(i) => services.update(
            i,
            ServiceView {
                phase: phase_for(health),
                health,
                last_observed: now,
                ..services[i]
            },
        ),
        None => services.push(
            ServiceView {
                name: svc.name@,
                container_name: container,
                image: svc.image@,
                phase: phase_for(health),
                health,
                last_observed: now,
            },
        ),
    }
}

/// Insert or update a service state entry.
pub fn upsert_svc_state(
    state: &mut ForgeState,
    svc: &ServiceSpec,
    cname: &str,
    health: ServiceHealth,
    now: u64,
)
    ensures
        final(state)@ == (StateView {
            services: with_service(old(state)@.services, *svc, cname@, health, now),
            ..old(state)@
        }),
{
    let phase = match health {
        ServiceHealth::Unhealthy => ServicePhase::Unhealthy,
        ServiceHealth::Unknown => ServicePhase::Running,
        ServiceHealth::Healthy => ServicePhase::Running,
    };
    let ghost before = state.services@;
    match find_service_index(&state.services, &svc.name) {
        Some(i) => {
            state.services[i].phase = phase;
            state.services[i].health = health;
            state.services[i].last_observed = now;
            assert(service_views(state.services@) =~= with_service(
                service_views(before),
                *svc,
                cname@,
                health,
                now,
            ));
        },
        None => {
            state.services.push(
                ServiceState {
                    name: svc.name.clone(),
                    container_name: cname.to_owned(),
                    image: svc.image.clone(),
                    phase,
                    health,
                    last_observed: now,
                },
            );
            assert(service_views(state.services@) =~= with_service(
                service_views(before),
                *svc,
                cname@,
                health,
                now,
            ));
        },
    }
}

/// The failure of a service whose health check never passed.
pub open spec fn unhealthy_error(svc: ServiceSpec, container: Seq<char>) -> ErrorView {
    ErrorView::Runtime(
        "service '"@ + svc.name@ + "' (container: "@ + container
            + ") failed its health check after "@ + (decimal(
            match svc.health_check {
                Some(check) => check.retries as nat,
                None => 0,
            },
        ) + " retries"@),
    )
}

/// Fail the run when a configured health check never passed.
///
/// The unhealthy phase is recorded in state before this runs, and the
/// checkpointed service phase persists it. Failing loudly keeps
/// `forge up` honest for scripts: without it a dead service printed a
/// plain "started" line and the run exited 0, with `forge status` as
/// the only signal.
pub fn ensure_healthy(svc: &ServiceSpec, cname: &str, health: ServiceHealth) -> (r: Result<
    (),
    ForgeError,
>)
    ensures
        if health == ServiceHealth::Unhealthy {
            r matches Err(e) && e@ == unhealthy_error(*svc, cname@)
        } else {
            r is Ok
        },
{
    if health != ServiceHealth::Unhealthy {
        return Ok(());
    }
    let retries: u32 = match &svc.health_check {
        Some(check) => check.retries,
        None => 0,
    };
    let tail = join2(&to_decimal(retries as u64), " retries");
    Err(
        ForgeError::Runtime(
            join6(
                "service '",
                &svc.name,
                "' (container: ",
                cname,
                ") failed its health check after ",
                &tail,
            ),
        ),
    )
}

/// The address at which a mapping with a bind address is probed: loopback,
/// where it is unset or unspecified, in whatever spelling, and otherwise the
/// address itself.
pub open spec fn probe_addr_of(bind: Option<Seq<char>>) -> Seq<char> {
    match bind {
        None => "127.0.0.1"@,
        Some(addr) => match ip_value(addr) {
            Some(ip) => if !ip.unspecified() {
                addr
            } else if ip is V4 {
                "127.0.0.1"@
            } else {
                "::1"@
            },
            None => addr,
        },
    }
}

/// Choose the probe address for a port mapping's bind address.
///
/// An unset or unspecified (`0.0.0.0`/`::`) address publishes on all
/// interfaces, which loopback reaches; any other address is bound to
/// that interface only and must be probed there.
pub fn probe_addr(bind_address: Option<&str>) -> (r: String)
    ensures
        r@ == probe_addr_of(opt_str(bind_address)),
{
    let addr = match bind_address {
        None => {
            return "127.0.0.1".to_owned();
        },
        Some(addr) => addr,
    };
    match parse_ip(addr) {
        Some(ip) => {
            if !ip.is_unspecified() {
                return addr.to_owned();
            }
            match ip {
                IpAddr::V4(_) => "127.0.0.1".to_owned(),
                IpAddr::V6 { .. } => "::1".to_owned(),
            }
        },
        None => addr.to_owned(),
    }
}

/// The first mapping from position `i` on that publishes a container port over
/// TCP.
pub open spec fn publisher(ports: Seq<PortMapping>, container: u16, i: int) -> Option<int>
    decreases ports.len() - i,
{
    if i < 0 || i >= ports.len() {
        None
    } else if publishes_tcp(ports[i], container) {
        Some(i)
    } else {
        publisher(ports, container, i + 1)
    }
}

/// The address and port at which a container port of a service is probed.
pub open spec fn probe_target(svc: ServiceSpec, container: u16) -> Option<(Seq<char>, u16)> {
    if svc.network == NetworkMode::Host {
        Some(("127.0.0.1"@, container))
    } else {
        match publisher(svc.ports@, container, 0) {
            Some(i) => Some(
                (probe_addr_of(opt_text(svc.ports@[i].bind_address)), svc.ports@[i].host),
            ),
            None => None,
        }
    }
}

/// Resolve a container-side health-check port to a probe target.
///
/// Host-network services expose the container port directly on
/// loopback. Published ports are probed at the mapping's bind address:
/// a mapping bound to a specific interface (e.g. a LAN IP) does not
/// listen on 127.0.0.1, so probing loopback would mark a healthy
/// service unhealthy.
pub fn health_probe_target(svc: &ServiceSpec, container_port: u16) -> (r: Option<(String, u16)>)
    ensures
        match probe_target(*svc, container_port) {
            Some((addr, port)) => r matches Some(t) && t.0@ == addr && t.1 == port,
            None => r is None,
        },
{
    if svc.network == NetworkMode::Host {
        return Some(("127.0.0.1".to_owned(), container_port));
    }
    let mut i: usize = 0;
    while i < svc.ports.len()
        invariant
            svc.network != NetworkMode::Host,
            i <= svc.ports@.len(),
            publisher(svc.ports@, container_port, 0) == publisher(
                svc.ports@,
                container_port,
                i as int,
            ),
        decreases svc.ports.len() - i,
    {
        let port = &svc.ports[i];
        if port.container == container_port && same_text(&port.protocol, "tcp") {
            return Some((probe_addr(borrow_text(&port.bind_address)), port.host));
        }
        i += 1;
    }
    None
}

/// How the health of a started service is found out.
#[derive(Clone, Debug)]
pub enum HealthPlan {
    /// It is known without probing.
    Known(ServiceHealth),
    /// It is probed.
    Probe {
        /// Address to probe.
        addr: String,
        /// Port to probe.
        port: u16,
    },
}

/// How the health of a service is found out, as contracts speak of it.
pub enum HealthPlanView {
    /// It is known without probing.
    Known(ServiceHealth),
    /// It is probed.
    Probe {
        /// Address to probe.
        addr: Seq<char>,
        /// Port to probe.
        port: u16,
    },
}

impl HealthPlan {
    pub open spec fn view(&self) -> HealthPlanView {
        match self {
            HealthPlan::Known(health) => HealthPlanView::Known(*health),
            HealthPlan::Probe { addr, port } => HealthPlanView::Probe { addr: addr@, port: *port },
        }
    }
}

/// How the health of a service is found out.
pub open spec fn health_plan_of(svc: ServiceSpec) -> HealthPlanView {
    match svc.health_check {
        None => HealthPlanView::Known(ServiceHealth::Unknown),
        Some(check) => match probe_target(svc, check.port) {
            None => HealthPlanView::Known(ServiceHealth::Unhealthy),
            Some((addr, port)) => HealthPlanView::Probe { addr, port },
        },
    }
}

/// Decide how the health of a started service is found out: a service without
/// a health check has unknown health, and one whose port is not reachable is
/// unhealthy.
pub fn run_health_check(svc: &ServiceSpec) -> (r: HealthPlan)
    ensures
        r@ == health_plan_of(*svc),
{
    match &svc.health_check {
        None => HealthPlan::Known(ServiceHealth::Unknown),
        Some(check) => match health_probe_target(svc, check.port) {
            None => HealthPlan::Known(ServiceHealth::Unhealthy),
            Some((addr, port)) => HealthPlan::Probe { addr, port },
        },
    }
}

/// A service that passed validation has a probe target for its health check:
/// its health is found out by probing, or there is nothing to find out.
pub proof fn law_validated_health_checks_can_be_probed(svc: ServiceSpec)
    requires
        crate::config::validate::services::service_health_complaint(svc) is None,
    ensures
        match health_plan_of(svc) {
            HealthPlanView::Known(health) => health == ServiceHealth::Unknown
                && svc.health_check is None,
            HealthPlanView::Probe { .. } => svc.health_check is Some,
        },
{
    if let Some(check) = svc.health_check {
        if svc.network != NetworkMode::Host {
            let k = choose|k: int|
                0 <= k < svc.ports.len() && publishes_tcp(#[trigger] svc.ports[k], check.port);
            lemma_publisher(svc.ports@, check.port, 0, k);
        }
    }
}

proof fn lemma_publisher(ports: Seq<PortMapping>, container: u16, i: int, k: int)
    requires
        0 <= i <= k < ports.len(),
        publishes_tcp(ports[k], container),
    ensures
        publisher(ports, container, i) is Some,
    decreases k - i,
{
    if !publishes_tcp(ports[i], container) {
        lemma_publisher(ports, container, i + 1, k);
    }
}

// ---------------------------------------------------------------
// Digest
// ---------------------------------------------------------------

/// The text that a configuration is digested from.
pub open spec fn config_text(config: ForgeConfig) -> Seq<char> {
    compact(config_json(config, config.spec.stacks@))
}

/// The digest of a configuration, where its text is short enough to have one.
pub open spec fn digest_of_config(config: ForgeConfig) -> Option<Seq<char>> {
    if byte_len(config_text(config)) < MESSAGE_LIMIT {
        Some(text_digest(config_text(config)))
    } else {
        None
    }
}

/// The failure to digest a configuration.
pub open spec fn config_too_large() -> ErrorView {
    ErrorView::State("cannot serialize config for digest: message too long"@)
}

/// Update the config digest in state.
///
/// # Errors
///
/// Returns [`ForgeError::State`] if the configuration is too large to digest.
pub fn update_digest(ctx: &ForgeContext<'_>, state: &mut ForgeState) -> (r: Result<(), ForgeError>)
    ensures
        match digest_of_config(*ctx.config) {
            Some(digest) => r is Ok && final(state)@ == (StateView {
                config_digest: Some(digest),
                ..old(state)@
            }),
            None => (r matches Err(e) && e@ == config_too_large()) && final(state)@ == old(state)@,
        },
{
    let text = to_text(&config_value(ctx.config, &ctx.config.spec.stacks));
    match digest_text(&text) {
        Some(digest) => {
            state.config_digest = Some(digest);
            Ok(())
        },
        None => Err(
            ForgeError::State("cannot serialize config for digest: message too long".to_owned()),
        ),
    }
}

} // verus!
