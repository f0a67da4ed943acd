//! The persisted state of an environment.

use vstd::prelude::*;
use crate::strmap::StrMap;
use crate::text::{opt_text, same_text};

verus! {

// ---------------------------------------------------------------
// Types
// ---------------------------------------------------------------

/// Lifecycle of a cluster.
#[derive(Clone, Copy, Debug, PartialEq, Eq, Structural)]
pub enum ClusterPhase {
    /// Creation has begun.
    Creating,
    /// The cluster exists.
    Running,
    /// Deletion has begun.
    Deleting,
    /// The cluster was deleted.
    Gone,
}

/// Lifecycle of a service container.
#[derive(Clone, Copy, Debug, PartialEq, Eq, Structural)]
pub enum ServicePhase {
    /// The container was started.
    Running,
    /// The container was started and its health check never passed.
    Unhealthy,
    /// The container was stopped.
    Stopped,
}

/// Health of a service.
#[derive(Clone, Copy, Debug, PartialEq, Eq, Structural)]
pub enum ServiceHealth {
    /// No health check is configured.
    Unknown,
    /// The health check passed.
    Healthy,
    /// The health check never passed.
    Unhealthy,
}

/// Lifecycle of the environment network.
#[derive(Clone, Copy, Debug, PartialEq, Eq, Structural)]
pub enum NetworkPhase {
    /// The network exists.
    Active,
    /// The network was removed.
    Gone,
}

/// Lifecycle of a stack on a cluster.
#[derive(Clone, Copy, Debug, PartialEq, Eq, Structural)]
pub enum StackPhase {
    /// The stack is being applied.
    Applying,
    /// The stack was applied.
    Applied,
    /// Applying the stack failed.
    Failed,
}

/// What is known of a cluster.
#[derive(Clone, Debug)]
pub struct ClusterState {
    /// Cluster name in the configuration.
    pub name: String,
    /// Name under which KIND knows the cluster.
    pub kind_name: String,
    /// kubectl context of the cluster.
    pub context: String,
    /// Lifecycle phase.
    pub phase: ClusterPhase,
}

/// What is known of a service.
#[derive(Clone, Debug)]
pub struct ServiceState {
    /// Service name in the configuration.
    pub name: String,
    /// Container name.
    pub container_name: String,
    /// Container image.
    pub image: String,
    /// Lifecycle phase.
    pub phase: ServicePhase,
    /// Health.
    pub health: ServiceHealth,
    /// When the service was last looked at, in seconds since the epoch.
    pub last_observed: u64,
}

/// What is known of a stack on a cluster.
#[derive(Clone, Debug)]
pub struct StackState {
    /// Stack name in the configuration.
    pub name: String,
    /// Cluster that the stack is applied to.
    pub cluster: String,
    /// Lifecycle phase.
    pub phase: StackPhase,
    /// Digest of the stack that was applied.
    pub digest: Option<String>,
    /// When the entry was last written, in seconds since the epoch.
    pub timestamp: u64,
    /// Why applying failed.
    pub error: Option<String>,
}

/// The address pool of a cluster.
#[derive(Clone, Debug)]
pub struct ClusterPool {
    /// Cluster name.
    pub cluster: String,
    /// Address range.
    pub range: String,
}

/// What is known of the environment network.
#[derive(Clone, Debug)]
pub struct NetworkState {
    /// Network name.
    pub name: String,
    /// Lifecycle phase.
    pub phase: NetworkPhase,
    /// Address range of the network.
    pub cidr: Option<String>,
    /// Address pools of the clusters.
    pub cluster_pools: Vec<ClusterPool>,
}

/// The last operation and how it went.
#[derive(Clone, Debug)]
pub struct OperationRecord {
    /// Name of the operation.
    pub operation: String,
    /// Whether it succeeded.
    pub success: bool,
    /// When it ended, in seconds since the epoch.
    pub timestamp: u64,
}

/// The persisted state of an environment.
#[derive(Clone, Debug)]
pub struct ForgeState {
    /// Container runtime in use.
    pub runtime: Option<String>,
    /// Clusters.
    pub clusters: Vec<ClusterState>,
    /// Services.
    pub services: Vec<ServiceState>,
    /// Stacks.
    pub stacks: Vec<StackState>,
    /// Environment network.
    pub network: Option<NetworkState>,
    /// Captured values by cluster and key.
    pub captures: StrMap<StrMap<String>>,
    /// Digest of the configuration.
    pub config_digest: Option<String>,
    /// Last operation.
    pub last_operation: Option<OperationRecord>,
}

// ---------------------------------------------------------------
// Views
// ---------------------------------------------------------------

/// A cluster as contracts speak of it.
pub struct ClusterView {
    pub name: Seq<char>,
    pub kind_name: Seq<char>,
    pub context: Seq<char>,
    pub phase: ClusterPhase,
}

/// A service as contracts speak of it.
pub struct ServiceView {
    pub name: Seq<char>,
    pub container_name: Seq<char>,
    pub image: Seq<char>,
    pub phase: ServicePhase,
    pub health: ServiceHealth,
    pub last_observed: u64,
}

/// A stack as contracts speak of it.
pub struct StackView {
    pub name: Seq<char>,
    pub cluster: Seq<char>,
    pub phase: StackPhase,
    pub digest: Option<Seq<char>>,
    pub timestamp: u64,
    pub error: Option<Seq<char>>,
}

/// An address pool as contracts speak of it.
pub struct PoolView {
    pub cluster: Seq<char>,
    pub range: Seq<char>,
}

/// A network as contracts speak of it.
pub struct NetworkView {
    pub name: Seq<char>,
    pub phase: NetworkPhase,
    pub cidr: Option<Seq<char>>,
    pub pools: Seq<PoolView>,
}

/// An operation as contracts speak of it.
pub struct OperationView {
    pub operation: Seq<char>,
    pub success: bool,
    pub timestamp: u64,
}

/// Captured values by key.
pub type CapturedView = Seq<(Seq<char>, Seq<char>)>;

/// A state as contracts speak of it.
pub struct StateView {
    pub runtime: Option<Seq<char>>,
    pub clusters: Seq<ClusterView>,
    pub services: Seq<ServiceView>,
    pub stacks: Seq<StackView>,
    pub network: Option<NetworkView>,
    pub captures: Seq<(Seq<char>, CapturedView)>,
    pub config_digest: Option<Seq<char>>,
    pub last_operation: Option<OperationView>,
}

impl ClusterState {
    pub open spec fn view(&self) -> ClusterView {
        ClusterView {
            name: self.name@,
            kind_name: self.kind_name@,
            context: self.context@,
            phase: self.phase,
        }
    }
}

impl ServiceState {
    pub open spec fn view(&self) -> ServiceView {
        ServiceView {
            name: self.name@,
            container_name: self.container_name@,
            image: self.image@,
            phase: self.phase,
            health: self.health,
            last_observed: self.last_observed,
        }
    }
}

impl StackState {
    pub open spec fn view(&self) -> StackView {
        StackView {
            name: self.name@,
            cluster: self.cluster@,
            phase: self.phase,
            digest: opt_text(self.digest),
            timestamp: self.timestamp,
            error: opt_text(self.error),
        }
    }
}

impl ClusterPool {
    pub open spec fn view(&self) -> PoolView {
        PoolView { cluster: self.cluster@, range: self.range@ }
    }
}

impl NetworkState {
    pub open spec fn view(&self) -> NetworkView {
        NetworkView {
            name: self.name@,
            phase: self.phase,
            cidr: opt_text(self.cidr),
            pools: pool_views(self.cluster_pools@),
        }
    }
}

impl OperationRecord {
    pub open spec fn view(&self) -> OperationView {
        OperationView {
            operation: self.operation@,
            success: self.success,
            timestamp: self.timestamp,
        }
    }
}

/// The clusters of a list.
pub open spec fn cluster_views(v: Seq<ClusterState>) -> Seq<ClusterView> {
    Seq::new(v.len(), |i: int| v[i]@)
}

/// The services of a list.
pub open spec fn service_views(v: Seq<ServiceState>) -> Seq<ServiceView> {
    Seq::new(v.len(), |i: int| v[i]@)
}

/// The stacks of a list.
pub open spec fn stack_views(v: Seq<StackState>) -> Seq<StackView> {
    Seq::new(v.len(), |i: int| v[i]@)
}

/// The pools of a list.
pub open spec fn pool_views(v: Seq<ClusterPool>) -> Seq<PoolView> {
    Seq::new(v.len(), |i: int| v[i]@)
}

/// The keys and captured values of a list of entries.
pub open spec fn captured_views(entries: Seq<(Seq<char>, String)>) -> CapturedView {
    Seq::new(entries.len(), |i: int| (entries[i].0, entries[i].1@))
}

/// The captured values of each cluster.
pub open spec fn captures_views(entries: Seq<(Seq<char>, StrMap<String>)>) -> Seq<
    (Seq<char>, CapturedView),
> {
    Seq::new(entries.len(), |i: int| (entries[i].0, captured_views(entries[i].1@)))
}

/// The network, if there is one.
pub open spec fn network_view(network: Option<NetworkState>) -> Option<NetworkView> {
    match network {
        Some(n) => Some(n@),
        None => None,
    }
}

/// The last operation, if there is one.
pub open spec fn operation_view(record: Option<OperationRecord>) -> Option<OperationView> {
    match record {
        Some(r) => Some(r@),
        None => None,
    }
}

impl ForgeState {
    pub open spec fn view(&self) -> StateView {
        StateView {
            runtime: opt_text(self.runtime),
            clusters: cluster_views(self.clusters@),
            services: service_views(self.services@),
            stacks: stack_views(self.stacks@),
            network: network_view(self.network),
            captures: captures_views(self.captures@),
            config_digest: opt_text(self.config_digest),
            last_operation: operation_view(self.last_operation),
        }
    }
}

/// The state of an environment of which nothing is known.
pub open spec fn empty_state() -> StateView {
    StateView {
        runtime: None,
        clusters: Seq::empty(),
        services: Seq::empty(),
        stacks: Seq::empty(),
        network: None,
        captures: Seq::empty(),
        config_digest: None,
        last_operation: None,
    }
}

/// The state of an environment of which nothing is known.
pub fn empty() -> (r: ForgeState)
    ensures
        r@ == empty_state(),
{
    let r = ForgeState {
        runtime: None,
        clusters: Vec::new(),
        services: Vec::new(),
        stacks: Vec::new(),
        network: None,
        captures: StrMap::new(),
        config_digest: None,
        last_operation: None,
    };
    proof {
        assert(r@.clusters =~= Seq::empty());
        assert(r@.services =~= Seq::empty());
        assert(r@.stacks =~= Seq::empty());
        assert(r@.captures =~= Seq::empty());
    }
    r
}

// ---------------------------------------------------------------
// Lookups
// ---------------------------------------------------------------

/// The first cluster with a name, from position `i` on.
pub open spec fn cluster_position(clusters: Seq<ClusterView>, name: Seq<char>, i: int) -> Option<
    int,
>
    decreases clusters.len() - i,
{
    if i < 0 || i >= clusters.len() {
        None
    } else if clusters[i].name == name {
        Some(i)
    } else {
        cluster_position(clusters, name, i + 1)
    }
}

/// The first service with a name, from position `i` on.
pub open spec fn service_position(services: Seq<ServiceView>, name: Seq<char>, i: int) -> Option<
    int,
>
    decreases services.len() - i,
{
    if i < 0 || i >= services.len() {
        None
    } else if services[i].name == name {
        Some(i)
    } else {
        service_position(services, name, i + 1)
    }
}

/// The first entry of a stack on a cluster, from position `i` on.
pub open spec fn stack_position(
    stacks: Seq<StackView>,
    name: Seq<char>,
    cluster: Seq<char>,
    i: int,
) -> Option<int>
    decreases stacks.len() - i,
{
    if i < 0 || i >= stacks.len() {
        None
    } else if stacks[i].name == name && stacks[i].cluster == cluster {
        Some(i)
    } else {
        stack_position(stacks, name, cluster, i + 1)
    }
}

/// The first pool of a cluster, from position `i` on.
pub open spec fn pool_position(pools: Seq<PoolView>, cluster: Seq<char>, i: int) -> Option<int>
    decreases pools.len() - i,
{
    if i < 0 || i >= pools.len() {
        None
    } else if pools[i].cluster == cluster {
        Some(i)
    } else {
        pool_position(pools, cluster, i + 1)
    }
}

/// True when a found index is the expected position in a list.
pub open spec fn found_at(r: Option<usize>, expected: Option<int>, len: nat) -> bool {
    match expected {
        Some(i) => r matches Some(k) && k == i && k < len,
        None => r is None,
    }
}

/// Finds the entry of a cluster.
pub fn find_cluster_index(clusters: &Vec<ClusterState>, name: &str) -> (r: Option<usize>)
    ensures
        found_at(r, cluster_position(cluster_views(clusters@), name@, 0), clusters@.len()),
{
    let ghost views = cluster_views(clusters@);
    let mut i: usize = 0;
    while i < clusters.len()
        invariant
            views == cluster_views(clusters@),
            i <= clusters@.len(),
            cluster_position(views, name@, 0) == cluster_position(views, name@, i as int),
        decreases clusters.len() - i,
    {
        assert(views[i as int] == clusters@[i as int]@);
        if same_text(&clusters[i].name, name) {
            return Some(i);
        }
        i += 1;
    }
    None
}

/// Finds the entry of a service.
pub fn find_service_index(services: &Vec<ServiceState>, name: &str) -> (r: Option<usize>)
    ensures
        found_at(r, service_position(service_views(services@), name@, 0), services@.len()),
{
    let ghost views = service_views(services@);
    let mut i: usize = 0;
    while i < services.len()
        invariant
            views == service_views(services@),
            i <= services@.len(),
            service_position(views, name@, 0) == service_position(views, name@, i as int),
        decreases services.len() - i,
    {
        assert(views[i as int] == services@[i as int]@);
        if same_text(&services[i].name, name) {
            return Some(i);
        }
        i += 1;
    }
    None
}

/// Finds the entry of a stack on a cluster.
pub fn find_stack_index(stacks: &Vec<StackState>, name: &str, cluster: &str) -> (r: Option<usize>)
    ensures
        found_at(r, stack_position(stack_views(stacks@), name@, cluster@, 0), stacks@.len()),
{
    let ghost views = stack_views(stacks@);
    let mut i: usize = 0;
    while i < stacks.len()
        invariant
            views == stack_views(stacks@),
            i <= stacks@.len(),
            stack_position(views, name@, cluster@, 0) == stack_position(
                views,
                name@,
                cluster@,
                i as int,
            ),
        decreases stacks.len() - i,
    {
        assert(views[i as int] == stacks@[i as int]@);
        if same_text(&stacks[i].name, name) && same_text(&stacks[i].cluster, cluster) {
            return Some(i);
        }
        i += 1;
    }
    None
}

/// Finds the pool of a cluster.
pub fn find_pool_index(pools: &Vec<ClusterPool>, cluster: &str) -> (r: Option<usize>)
    ensures
        found_at(r, pool_position(pool_views(pools@), cluster@, 0), pools@.len()),
{
    let ghost views = pool_views(pools@);
    let mut i: usize = 0;
    while i < pools.len()
        invariant
            views == pool_views(pools@),
            i <= pools@.len(),
            pool_position(views, cluster@, 0) == pool_position(views, cluster@, i as int),
        decreases pools.len() - i,
    {
        assert(views[i as int] == pools@[i as int]@);
        if same_text(&pools[i].cluster, cluster) {
            return Some(i);
        }
        i += 1;
    }
    None
}

/// Looks up a cluster.
pub fn find_cluster<'st>(st: &'st ForgeState, name: &str) -> (r: Option<&'st ClusterState>)
    ensures
        match cluster_position(st@.clusters, name@, 0) {
            Some(i) => r matches Some(found) && found@ == st@.clusters[i],
            None => r is None,
        },
{
    match find_cluster_index(&st.clusters, name) {
        Some(i) => Some(&st.clusters[i]),
        None => None,
    }
}

/// Looks up a service.
pub fn find_service<'st>(st: &'st ForgeState, name: &str) -> (r: Option<&'st ServiceState>)
    ensures
        match service_position(st@.services, name@, 0) {
            Some(i) => r matches Some(found) && found@ == st@.services[i],
            None => r is None,
        },
{
    match find_service_index(&st.services, name) {
        Some(i) => Some(&st.services[i]),
        None => None,
    }
}

/// Looks up a stack on a cluster.
pub fn find_stack<'st>(st: &'st ForgeState, name: &str, cluster: &str) -> (r: Option<
    &'st StackState,
>)
    ensures
        match stack_position(st@.stacks, name@, cluster@, 0) {
            Some(i) => r matches Some(found) && found@ == st@.stacks[i],
            None => r is None,
        },
{
    match find_stack_index(&st.stacks, name, cluster) {
        Some(i) => Some(&st.stacks[i]),
        None => None,
    }
}

/// The recorded address range of a cluster.
pub open spec fn pool_range(network: Option<NetworkView>, cluster: Seq<char>) -> Option<Seq<char>> {
    match network {
        Some(n) => match pool_position(n.pools, cluster, 0) {
            Some(i) => Some(n.pools[i].range),
            None => None,
        },
        None => None,
    }
}

/// Looks up the recorded address range of a cluster.
pub fn find_cluster_pool(st: &ForgeState, cluster: &str) -> (r: Option<String>)
    ensures
        opt_text(r) == pool_range(st@.network, cluster@),
{
    match &st.network {
        Some(network) => match find_pool_index(&network.cluster_pools, cluster) {
            Some(i) => Some(network.cluster_pools[i].range.clone()),
            None => None,
        },
        None => None,
    }
}

// ---------------------------------------------------------------
// Operations
// ---------------------------------------------------------------

/// A state after an operation ended.
pub open spec fn with_operation(
    st: StateView,
    operation: Seq<char>,
    success: bool,
    now: u64,
) -> StateView {
    StateView {
        last_operation: Some(OperationView { operation, success, timestamp: now }),
        ..st
    }
}

/// Records how an operation ended.
pub fn record_operation(st: &mut ForgeState, operation: &str, success: bool, now: u64)
    ensures
        final(st)@ == with_operation(old(st)@, operation@, success, now),
{
    st.last_operation = Some(
        OperationRecord { operation: operation.to_owned(), success, timestamp: now },
    );
}

/// An empty state records nothing.
pub proof fn law_empty_states_record_nothing()
    ensures
        empty_state().runtime is None,
        empty_state().clusters.len() == 0,
        empty_state().services.len() == 0,
        empty_state().stacks.len() == 0,
        empty_state().network is None,
        empty_state().captures.len() == 0,
        empty_state().config_digest is None,
        empty_state().last_operation is None,
{
}

} // verus!
