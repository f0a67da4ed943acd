//! What the state records of stacks, address pools and captured values.

use vstd::prelude::*;
use crate::config::document::{stack_json, stack_value};
use crate::config::{ClusterSpec, ForgeConfig, NetworkConfig, StackSpec};
use crate::context::ForgeContext;
use crate::digest::{digest_text, text_digest, MESSAGE_LIMIT};
use crate::error::ForgeError;
use crate::json::{compact, to_text};
use crate::stack::course::{clusters_distinct, law_clusters_are_told_their_position};
use crate::state::{
    captured_views, captures_views, find_cluster_pool, find_pool_index, find_stack_index,
    pool_position, pool_range, pool_views, stack_position, stack_views, CapturedView, ClusterPool,
    ForgeState, NetworkPhase, NetworkState, NetworkView, PoolView, StackPhase, StackState,
    StackView, StateView,
};
use crate::strmap::{
    has_key, keys_ascend, lemma_precedes_irreflexive, lemma_value_iff_key, lemma_with_entry,
    precedes, value_of, with_entry, StrMap,
};
use crate::text::{byte_len, opt_str, opt_text, own_text, same_text};

verus! {

// ---------------------------------------------------------------
// Stack entries
// ---------------------------------------------------------------

/// The stacks with the entry of one stack on one cluster written.
pub open spec fn with_stack(stacks: Seq<StackView>, entry: StackView) -> Seq<StackView> {
    match stack_position(stacks, entry.name, entry.cluster, 0) {
        Some(i) => stacks.update(i, entry),
        None => stacks.push(entry),
    }
}

/// A state with the entry of one stack on one cluster written.
pub open spec fn with_stack_entry(st: StateView, entry: StackView) -> StateView {
    StateView { stacks: with_stack(st.stacks, entry), ..st }
}

proof fn lemma_stack_position(
    stacks: Seq<StackView>,
    name: Seq<char>,
    cluster: Seq<char>,
    i: int,
)
    requires
        0 <= i <= stacks.len(),
    ensures
        match stack_position(stacks, name, cluster, i) {
            Some(k) => i <= k < stacks.len() && stacks[k].name == name && stacks[k].cluster
                == cluster && forall|m: int|
                i <= m < k ==> !((#[trigger] stacks[m]).name == name && stacks[m].cluster
                    == cluster),
            None => forall|m: int|
                i <= m < stacks.len() ==> !((#[trigger] stacks[m]).name == name
                    && stacks[m].cluster == cluster),
        },
    decreases stacks.len() - i,
{
    if i < stacks.len() {
        lemma_stack_position(stacks, name, cluster, i + 1);
    }
}

fn write_stack_entry(
    st: &mut ForgeState,
    name: &str,
    cluster: &str,
    phase: StackPhase,
    digest: Option<&str>,
    error: Option<&str>,
    now: u64,
)
    ensures
        final(st)@ == with_stack_entry(
            old(st)@,
            StackView {
                name: name@,
                cluster: cluster@,
                phase,
                digest: opt_str(digest),
                timestamp: now,
                error: opt_str(error),
            },
        ),
{
    let entry = StackState {
        name: name.to_owned(),
        cluster: cluster.to_owned(),
        phase,
        digest: own_text(digest),
        timestamp: now,
        error: own_text(error),
    };
    let ghost before = st.stacks@;
    let ghost written = entry@;
    match find_stack_index(&st.stacks, name, cluster) {
        Some(i) => {
            st.stacks[i] = entry;
            assert(stack_views(st.stacks@) =~= stack_views(before).update(i as int, written));
        },
        None => {
            st.stacks.push(entry);
            assert(stack_views(st.stacks@) =~= stack_views(before).push(written));
        },
    }
}

/// Insert or update a stack state entry.
pub fn upsert_stack_state(
    st: &mut ForgeState,
    name: &str,
    cluster: &str,
    phase: StackPhase,
    digest: Option<&str>,
    now: u64,
)
    ensures
        final(st)@ == with_stack_entry(
            old(st)@,
            StackView {
                name: name@,
                cluster: cluster@,
                phase,
                digest: opt_str(digest),
                timestamp: now,
                error: None,
            },
        ),
{
    write_stack_entry(st, name, cluster, phase, digest, None, now)
}

/// Mark a stack as failed with an error message.
pub fn set_stack_failed(
    st: &mut ForgeState,
    name: &str,
    cluster: &str,
    digest: Option<&str>,
    message: &str,
    now: u64,
)
    ensures
        final(st)@ == with_stack_entry(
            old(st)@,
            StackView {
                name: name@,
                cluster: cluster@,
                phase: StackPhase::Failed,
                digest: opt_str(digest),
                timestamp: now,
                error: Some(message@),
            },
        ),
{
    write_stack_entry(st, name, cluster, StackPhase::Failed, digest, Some(message), now)
}

/// What a state says of a stack on a cluster after its entry was written is
/// what was written; a retry after a failure therefore clears the error. What
/// it says of every other stack and cluster stays as it was.
pub proof fn law_stack_entry_is_what_was_written(
    stacks: Seq<StackView>,
    entry: StackView,
    name: Seq<char>,
    cluster: Seq<char>,
)
    ensures
        ({
            let after = with_stack(stacks, entry);
            let old_at = stack_position(stacks, name, cluster, 0);
            let new_at = stack_position(after, name, cluster, 0);
            if name == entry.name && cluster == entry.cluster {
                new_at is Some && after[new_at->0] == entry
            } else {
                new_at == old_at && (old_at is Some ==> after[new_at->0] == stacks[old_at->0])
            }
        }),
{
    let after = with_stack(stacks, entry);
    lemma_stack_position(stacks, entry.name, entry.cluster, 0);
    lemma_stack_position(stacks, name, cluster, 0);
    lemma_stack_position(after, name, cluster, 0);
    let at = stack_position(stacks, entry.name, entry.cluster, 0);
    assert forall|m: int| 0 <= m < stacks.len() implies (#[trigger] after[m]).name == stacks[m].name
        && after[m].cluster == stacks[m].cluster by {
        if at == Some(m) {
            assert(after[m] == entry);
        } else {
            assert(after[m] == stacks[m]);
        }
    }
    if name == entry.name && cluster == entry.cluster {
        match at {
            Some(k) => {
                assert(after[k] == entry);
            },
            None => {
                assert(after[stacks.len() as int] == entry);
            },
        }
    } else {
        let old_at = stack_position(stacks, name, cluster, 0);
        let new_at = stack_position(after, name, cluster, 0);
        if let Some(k) = old_at {
            assert(after[k].name == name && after[k].cluster == cluster);
            assert(new_at is Some);
            let m = new_at->0;
            if m < k {
                assert(stacks[m].name == name && stacks[m].cluster == cluster);
            }
        }
        if let Some(m) = new_at {
            if m < stacks.len() {
                assert(stacks[m].name == name && stacks[m].cluster == cluster);
            }
        }
    }
}

// ---------------------------------------------------------------
// Digests and drift
// ---------------------------------------------------------------

/// The text that a stack is digested from.
pub open spec fn stack_text(spec: StackSpec) -> Seq<char> {
    compact(stack_json(spec))
}

/// The digest of a stack, where its text is short enough to have one.
pub open spec fn digest_of_stack(spec: StackSpec) -> Option<Seq<char>> {
    if byte_len(stack_text(spec)) < MESSAGE_LIMIT {
        Some(text_digest(stack_text(spec)))
    } else {
        None
    }
}

/// Compute a stable digest for the stack spec being applied.
///
/// # Errors
///
/// Returns [`ForgeError::State`] if the stack is too large to digest.
pub fn stack_digest(spec: &StackSpec) -> (r: Result<String, ForgeError>)
    ensures
        match digest_of_stack(*spec) {
            Some(digest) => r matches Ok(text) && text@ == digest,
            None => r matches Err(ForgeError::State(m)) && m@
                == "cannot serialize stack spec for digest: message too long"@,
        },
{
    let json = to_text(&stack_value(spec));
    match digest_text(&json) {
        Some(digest) => Ok(digest),
        None => Err(
            ForgeError::State(
                "cannot serialize stack spec for digest: message too long".to_owned(),
            ),
        ),
    }
}

/// Whether the configured stack differs from the one that an entry records;
/// nothing, where the entry has no digest, the stack is no longer configured,
/// or it cannot be digested.
pub open spec fn drift_of(
    stacks: Seq<(Seq<char>, StackSpec)>,
    entry: StackView,
) -> Option<bool> {
    match entry.digest {
        Some(stored) => match value_of(stacks, entry.name) {
            Some(spec) => match digest_of_stack(spec) {
                Some(fresh) => Some(stored != fresh),
                None => None,
            },
            None => None,
        },
        None => None,
    }
}

/// Compare a stored stack digest against the currently configured spec.
///
/// Returns `Some(true)` when the spec has changed since the recorded
/// apply, `Some(false)` when it still matches, and `None` when drift
/// cannot be determined (no digest was recorded, or the stack is no
/// longer present in the config).
pub fn stack_drifted(ctx: &ForgeContext<'_>, entry: &StackState) -> (r: Option<bool>)
    ensures
        r == drift_of(ctx.config.spec.stacks@, entry@),
{
    let stored = match &entry.digest {
        Some(stored) => stored,
        None => {
            return None;
        },
    };
    let spec = match ctx.config.spec.stacks.get(&entry.name) {
        Some(spec) => spec,
        None => {
            return None;
        },
    };
    match stack_digest(spec) {
        Ok(fresh) => Some(!same_text(stored, &fresh)),
        Err(_) => None,
    }
}

/// A stack that is still configured as it was when its digest was recorded has
/// not drifted.
pub proof fn law_unchanged_stack_has_not_drifted(
    stacks: Seq<(Seq<char>, StackSpec)>,
    entry: StackView,
    spec: StackSpec,
)
    requires
        value_of(stacks, entry.name) == Some(spec),
        entry.digest is Some,
        entry.digest == digest_of_stack(spec),
    ensures
        drift_of(stacks, entry) == Some(false),
{
}

// ---------------------------------------------------------------
// Status
// ---------------------------------------------------------------

/// True when an entry is asked for.
pub open spec fn selected(entry: StackView, cluster: Option<Seq<char>>) -> bool {
    match cluster {
        Some(name) => entry.cluster == name,
        None => true,
    }
}

/// The first `n` entries, those that are asked for.
pub open spec fn selected_stacks(
    stacks: Seq<StackView>,
    cluster: Option<Seq<char>>,
    n: int,
) -> Seq<StackView>
    decreases n,
{
    if n <= 0 {
        Seq::empty()
    } else if selected(stacks[n - 1], cluster) {
        selected_stacks(stacks, cluster, n - 1).push(stacks[n - 1])
    } else {
        selected_stacks(stacks, cluster, n - 1)
    }
}

/// The entries of a list of references.
pub open spec fn stack_ref_views(v: Seq<&StackState>) -> Seq<StackView> {
    Seq::new(v.len(), |i: int| v[i]@)
}

/// Filter stack states by optional cluster name.
pub fn filter_stack_states<'st>(st: &'st ForgeState, cluster: Option<&str>) -> (r: Vec<
    &'st StackState,
>)
    ensures
        stack_ref_views(r@) == selected_stacks(
            st@.stacks,
            opt_str(cluster),
            st@.stacks.len() as int,
        ),
{
    let ghost all = st@.stacks;
    let mut r: Vec<&'st StackState> = Vec::new();
    let mut i: usize = 0;
    assert(stack_ref_views(r@) =~= selected_stacks(all, opt_str(cluster), 0));
    while i < st.stacks.len()
        invariant
            all == stack_views(st.stacks@),
            i <= st.stacks@.len(),
            stack_ref_views(r@) == selected_stacks(all, opt_str(cluster), i as int),
        decreases st.stacks.len() - i,
    {
        let entry = &st.stacks[i];
        assert(all[i as int] == entry@);
        let wanted = match cluster {
            Some(name) => same_text(&entry.cluster, name),
            None => true,
        };
        if wanted {
            let ghost before = r@;
            r.push(entry);
            assert(stack_ref_views(r@) =~= stack_ref_views(before).push(entry@));
        }
        i += 1;
    }
    r
}

// ---------------------------------------------------------------
// Network integration
// ---------------------------------------------------------------

/// The DNS zone of a network that configures none.
pub const DEFAULT_DNS_ZONE: &'static str = "forge.test";

impl NetworkConfig {
    /// The configured DNS zone, or the default one.
    pub open spec fn zone(&self) -> Seq<char> {
        match self.dns_zone {
            Some(zone) => zone@,
            None => DEFAULT_DNS_ZONE@,
        }
    }

    /// The configured DNS zone, or the default one.
    pub fn dns_zone(&self) -> (r: String)
        ensures
            r@ == self.zone(),
    {
        match &self.dns_zone {
            Some(zone) => zone.clone(),
            None => DEFAULT_DNS_ZONE.to_owned(),
        }
    }
}

/// What applying a stack to a cluster needs to know of the shared network.
#[derive(Clone, Debug)]
pub struct NetworkParams {
    /// Recorded address range of the cluster.
    pub cluster_pool: Option<String>,
    /// Position of the cluster in the configuration.
    pub cluster_index: usize,
    /// Number of clusters in the configuration.
    pub cluster_count: usize,
    /// DNS zone for discovery across clusters.
    pub dns_zone: String,
}

/// Network parameters as contracts speak of them.
pub struct ParamsView {
    /// Recorded address range of the cluster.
    pub cluster_pool: Option<Seq<char>>,
    /// Position of the cluster in the configuration.
    pub cluster_index: int,
    /// Number of clusters in the configuration.
    pub cluster_count: nat,
    /// DNS zone for discovery across clusters.
    pub dns_zone: Seq<char>,
}

impl NetworkParams {
    pub open spec fn view(&self) -> ParamsView {
        ParamsView {
            cluster_pool: opt_text(self.cluster_pool),
            cluster_index: self.cluster_index as int,
            cluster_count: self.cluster_count as nat,
            dns_zone: self.dns_zone@,
        }
    }
}

/// Network parameters, if there are any.
pub open spec fn params_view(params: Option<NetworkParams>) -> Option<ParamsView> {
    match params {
        Some(p) => Some(p@),
        None => None,
    }
}

/// The first configured cluster with a name, from position `i` on.
pub open spec fn configured_position(clusters: Seq<ClusterSpec>, name: Seq<char>, i: int) -> Option<
    int,
>
    decreases clusters.len() - i,
{
    if i < 0 || i >= clusters.len() {
        None
    } else if clusters[i].name@ == name {
        Some(i)
    } else {
        configured_position(clusters, name, i + 1)
    }
}

/// Finds a configured cluster by name.
pub fn find_configured(clusters: &Vec<ClusterSpec>, name: &str) -> (r: Option<usize>)
    ensures
        match configured_position(clusters@, name@, 0) {
            Some(i) => r matches Some(k) && k == i && k < clusters@.len(),
            None => r is None,
        },
{
    let mut i: usize = 0;
    while i < clusters.len()
        invariant
            i <= clusters@.len(),
            configured_position(clusters@, name@, 0) == configured_position(
                clusters@,
                name@,
                i as int,
            ),
        decreases clusters.len() - i,
    {
        if same_text(&clusters[i].name, name) {
            return Some(i);
        }
        i += 1;
    }
    None
}

/// Find a cluster's position in the config cluster list; the first position,
/// where it is not in the list.
pub fn cluster_index(ctx: &ForgeContext<'_>, name: &str) -> (r: usize)
    ensures
        match configured_position(ctx.config.spec.clusters@, name@, 0) {
            Some(i) => r == i,
            None => r == 0,
        },
{
    match find_configured(&ctx.config.spec.clusters, name) {
        Some(i) => i,
        None => 0,
    }
}

/// The network parameters of a cluster, where the clusters share a network.
pub open spec fn network_params_of(
    config: ForgeConfig,
    cluster: Seq<char>,
    st: StateView,
) -> Option<ParamsView> {
    match config.spec.network {
        Some(net) => if net.cross_cluster {
            Some(
                ParamsView {
                    cluster_pool: pool_range(st.network, cluster),
                    cluster_index: match configured_position(config.spec.clusters@, cluster, 0) {
                        Some(i) => i,
                        None => 0,
                    },
                    cluster_count: config.spec.clusters@.len(),
                    dns_zone: net.zone(),
                },
            )
        } else {
            None
        },
        None => None,
    }
}

/// Build [`NetworkParams`] when cross-cluster networking is enabled.
pub fn build_network_params(ctx: &ForgeContext<'_>, cluster: &ClusterSpec, st: &ForgeState) -> (r:
    Option<NetworkParams>)
    ensures
        params_view(r) == network_params_of(*ctx.config, cluster.name@, st@),
        clusters_distinct(*ctx.config) ==> forall|k: int|
            0 <= k < ctx.config.spec.clusters@.len() && (
            #[trigger] ctx.config.spec.clusters@[k]).name@ == cluster.name@ ==> (r matches Some(
                params,
            ) ==> params.cluster_index == k && params.cluster_count
                == ctx.config.spec.clusters@.len()),
{
    proof {
        if clusters_distinct(*ctx.config) {
            assert forall|k: int|
                0 <= k < ctx.config.spec.clusters@.len() && (
                #[trigger] ctx.config.spec.clusters@[k]).name@ == cluster.name@ implies (
            network_params_of(*ctx.config, cluster.name@, st@) matches Some(params)
                ==> params.cluster_index == k) by {
                law_clusters_are_told_their_position(*ctx.config, k, st@);
            }
        }
    }
    let net_cfg = match &ctx.config.spec.network {
        Some(net) => net,
        None => {
            return None;
        },
    };
    if !net_cfg.cross_cluster {
        return None;
    }
    let idx = cluster_index(ctx, &cluster.name);
    Some(
        NetworkParams {
            cluster_pool: find_cluster_pool(st, &cluster.name),
            cluster_index: idx,
            cluster_count: ctx.config.spec.clusters.len(),
            dns_zone: net_cfg.dns_zone(),
        },
    )
}

/// An address range computed for a cluster, and the network it was computed
/// from.
#[derive(Clone, Debug)]
pub struct PoolAllocation {
    /// Address range of the network.
    pub cidr: String,
    /// Address range for the cluster.
    pub range: String,
}

/// An allocation as contracts speak of it.
pub struct AllocationView {
    /// Address range of the network.
    pub cidr: Seq<char>,
    /// Address range for the cluster.
    pub range: Seq<char>,
}

impl PoolAllocation {
    pub open spec fn view(&self) -> AllocationView {
        AllocationView { cidr: self.cidr@, range: self.range@ }
    }
}

/// The pools with the range of one cluster written.
pub open spec fn with_pool(pools: Seq<PoolView>, pool: PoolView) -> Seq<PoolView> {
    match pool_position(pools, pool.cluster, 0) {
        Some(i) => pools.update(i, pool),
        None => pools.push(pool),
    }
}

/// The network with an allocation recorded. Pools of another address range are
/// dropped.
pub open spec fn with_allocation(
    network: Option<NetworkView>,
    name: Seq<char>,
    cluster: Seq<char>,
    alloc: AllocationView,
) -> NetworkView {
    let base = match network {
        Some(n) => n,
        None => NetworkView { name, phase: NetworkPhase::Active, cidr: None, pools: Seq::empty() },
    };
    let kept = if base.cidr == Some(alloc.cidr) {
        base.pools
    } else {
        Seq::empty()
    };
    NetworkView {
        cidr: Some(alloc.cidr),
        pools: with_pool(kept, PoolView { cluster, range: alloc.range }),
        ..base
    }
}

fn write_pool(net: &mut NetworkState, cluster: &str, alloc: &PoolAllocation)
    ensures
        final(net)@ == with_allocation(Some(old(net)@), Seq::empty(), cluster@, alloc@),
{
    let same_cidr = match &net.cidr {
        Some(cidr) => same_text(cidr, &alloc.cidr),
        None => false,
    };
    if !same_cidr {
        net.cidr = Some(alloc.cidr.clone());
        net.cluster_pools = Vec::new();
        assert(pool_views(net.cluster_pools@) =~= Seq::empty());
    }
    let ghost kept = net.cluster_pools@;
    let pool = ClusterPool { cluster: cluster.to_owned(), range: alloc.range.clone() };
    let ghost written = pool@;
    match find_pool_index(&net.cluster_pools, cluster) {
        Some(i) => {
            net.cluster_pools[i] = pool;
            assert(pool_views(net.cluster_pools@) =~= pool_views(kept).update(i as int, written));
        },
        None => {
            net.cluster_pools.push(pool);
            assert(pool_views(net.cluster_pools@) =~= pool_views(kept).push(written));
        },
    }
}

/// Record a newly computed pool allocation in state.
///
/// When no network state exists yet (a cross-cluster stack applied
/// before `up` recorded the network), an active entry is initialised
/// so the computed allocation is not silently dropped: the pool was
/// derived by inspecting the live container network, which therefore
/// exists.
pub fn record_pool_allocation(
    st: &mut ForgeState,
    network_name: &str,
    cluster: &str,
    alloc: &PoolAllocation,
)
    ensures
        final(st)@ == (StateView {
            network: Some(with_allocation(old(st)@.network, network_name@, cluster@, alloc@)),
            ..old(st)@
        }),
{
    if st.network.is_none() {
        let fresh = NetworkState {
            name: network_name.to_owned(),
            phase: NetworkPhase::Active,
            cidr: None,
            cluster_pools: Vec::new(),
        };
        assert(pool_views(fresh.cluster_pools@) =~= Seq::empty());
        st.network = Some(fresh);
    }
    if let Some(ref mut net) = st.network {
        write_pool(net, cluster, alloc);
    }
}

proof fn lemma_pool_position(pools: Seq<PoolView>, cluster: Seq<char>, i: int)
    requires
        0 <= i <= pools.len(),
    ensures
        match pool_position(pools, cluster, i) {
            Some(k) => i <= k < pools.len() && pools[k].cluster == cluster && forall|m: int|
                i <= m < k ==> (#[trigger] pools[m]).cluster != cluster,
            None => forall|m: int|
                i <= m < pools.len() ==> (#[trigger] pools[m]).cluster != cluster,
        },
    decreases pools.len() - i,
{
    if i < pools.len() {
        lemma_pool_position(pools, cluster, i + 1);
    }
}

/// An allocation is never dropped: the recorded range of a cluster is the one
/// that was allocated last, whatever the state knew of the network before.
pub proof fn law_allocation_is_recorded(
    network: Option<NetworkView>,
    name: Seq<char>,
    cluster: Seq<char>,
    alloc: AllocationView,
)
    ensures
        pool_range(Some(with_allocation(network, name, cluster, alloc)), cluster) == Some(
            alloc.range,
        ),
        with_allocation(network, name, cluster, alloc).cidr == Some(alloc.cidr),
        network is None ==> with_allocation(network, name, cluster, alloc).name == name
            && with_allocation(network, name, cluster, alloc).phase == NetworkPhase::Active,
{
    let base = match network {
        Some(n) => n,
        None => NetworkView { name, phase: NetworkPhase::Active, cidr: None, pools: Seq::empty() },
    };
    let kept = if base.cidr == Some(alloc.cidr) {
        base.pools
    } else {
        Seq::empty()
    };
    let pool = PoolView { cluster, range: alloc.range };
    let pools = with_pool(kept, pool);
    lemma_pool_position(kept, cluster, 0);
    lemma_pool_position(pools, cluster, 0);
    match pool_position(kept, cluster, 0) {
        Some(k) => {
            assert(pools[k] == pool);
            let m = pool_position(pools, cluster, 0)->0;
            if m < k {
                assert(pools[m] == kept[m]);
            }
        },
        None => {
            assert(pools[kept.len() as int] == pool);
            let m = pool_position(pools, cluster, 0)->0;
            if m < kept.len() {
                assert(pools[m] == kept[m]);
            }
        },
    }
}

/// Recording an allocation a second time changes nothing.
pub proof fn law_allocation_is_recorded_once(
    network: Option<NetworkView>,
    name: Seq<char>,
    cluster: Seq<char>,
    alloc: AllocationView,
)
    ensures
        ({
            let once = with_allocation(network, name, cluster, alloc);
            with_allocation(Some(once), name, cluster, alloc) == once
        }),
{
    let once = with_allocation(network, name, cluster, alloc);
    law_allocation_is_recorded(network, name, cluster, alloc);
    lemma_pool_position(once.pools, cluster, 0);
    let pool = PoolView { cluster, range: alloc.range };
    assert(with_pool(once.pools, pool) =~= once.pools);
}

// ---------------------------------------------------------------
// Captures
// ---------------------------------------------------------------

/// The values with the first `n` new ones merged in.
pub open spec fn merged(values: CapturedView, new: CapturedView, n: int) -> CapturedView
    decreases n,
{
    if n <= 0 {
        values
    } else {
        with_entry(merged(values, new, n - 1), new[n - 1].0, new[n - 1].1)
    }
}

/// The captures with the new values of a cluster merged in.
pub open spec fn with_captures(
    captures: Seq<(Seq<char>, CapturedView)>,
    cluster: Seq<char>,
    new: CapturedView,
) -> Seq<(Seq<char>, CapturedView)> {
    if new.len() == 0 {
        captures
    } else {
        let values = match value_of(captures, cluster) {
            Some(v) => v,
            None => Seq::empty(),
        };
        with_entry(captures, cluster, merged(values, new, new.len() as int))
    }
}

proof fn lemma_captured_with_entry(
    entries: Seq<(Seq<char>, String)>,
    key: Seq<char>,
    value: String,
)
    ensures
        captured_views(with_entry(entries, key, value)) == with_entry(
            captured_views(entries),
            key,
            value@,
        ),
    decreases entries.len(),
{
    let views = captured_views(entries);
    if entries.len() > 0 {
        let rest = entries.drop_first();
        assert(captured_views(rest) =~= views.drop_first());
        lemma_captured_with_entry(rest, key, value);
    }
    assert(captured_views(with_entry(entries, key, value)) =~= with_entry(views, key, value@));
}

proof fn lemma_captures_with_entry(
    entries: Seq<(Seq<char>, StrMap<String>)>,
    key: Seq<char>,
    value: StrMap<String>,
)
    ensures
        captures_views(with_entry(entries, key, value)) == with_entry(
            captures_views(entries),
            key,
            captured_views(value@),
        ),
    decreases entries.len(),
{
    let views = captures_views(entries);
    if entries.len() > 0 {
        let rest = entries.drop_first();
        assert(captures_views(rest) =~= views.drop_first());
        lemma_captures_with_entry(rest, key, value);
    }
    assert(captures_views(with_entry(entries, key, value)) =~= with_entry(
        views,
        key,
        captured_views(value@),
    ));
}

proof fn lemma_captures_value(entries: Seq<(Seq<char>, StrMap<String>)>, key: Seq<char>)
    ensures
        value_of(captures_views(entries), key) == match value_of(entries, key) {
            Some(m) => Some(captured_views(m@)),
            None => None,
        },
    decreases entries.len(),
{
    if entries.len() > 0 {
        let rest = entries.drop_first();
        assert(captures_views(rest) =~= captures_views(entries).drop_first());
        lemma_captures_value(rest, key);
    }
}

/// Copies a map of texts.
pub fn copy_texts(map: &StrMap<String>) -> (r: StrMap<String>)
    ensures
        captured_views(r@) == captured_views(map@),
{
    let r = map.clone();
    assert(captured_views(r@) =~= captured_views(map@));
    r
}

/// Merge captured values from a stack apply into persisted state.
pub fn record_captures(st: &mut ForgeState, cluster: &str, captures: &StrMap<String>)
    ensures
        final(st)@ == (StateView {
            captures: with_captures(old(st)@.captures, cluster@, captured_views(captures@)),
            ..old(st)@
        }),
{
    if captures.len() == 0 {
        return;
    }
    let ghost new = captured_views(captures@);
    proof {
        lemma_captures_value(st.captures@, cluster@);
    }
    let mut entry = match st.captures.get(cluster) {
        Some(values) => copy_texts(values),
        None => StrMap::new(),
    };
    let ghost values = match value_of(st@.captures, cluster@) {
        Some(v) => v,
        None => Seq::empty(),
    };
    assert(captured_views(entry@) =~= values);
    let mut i: usize = 0;
    while i < captures.len()
        invariant
            new == captured_views(captures@),
            i <= captures@.len(),
            captured_views(entry@) == merged(values, new, i as int),
        decreases captures@.len() - i,
    {
        let key = captures.key_at(i).clone();
        let value = captures.value_at(i).clone();
        proof {
            lemma_captured_with_entry(entry@, key@, value);
            assert(new[i as int] == (key@, value@));
        }
        entry.insert(key, value);
        i += 1;
    }
    proof {
        lemma_captures_with_entry(st.captures@, cluster@, entry);
    }
    st.captures.insert(cluster.to_owned(), entry);
}

proof fn lemma_value_absent(entries: CapturedView, key: Seq<char>, n: int)
    requires
        keys_ascend(entries),
        0 <= n < entries.len(),
        key == entries[n].0,
    ensures
        value_of(entries.take(n), key) is None,
        value_of(entries.take(n + 1), key) == Some(entries[n].1),
{
    lemma_value_iff_key(entries.take(n), key);
    lemma_value_iff_key(entries.take(n + 1), key);
    lemma_precedes_irreflexive(key);
    if has_key(entries.take(n), key) {
        let i = choose|i: int| 0 <= i < n && (#[trigger] entries.take(n)[i]).0 == key;
        assert(precedes(entries[i].0, entries[n].0));
    }
    lemma_value_of_push(entries.take(n), entries[n], key);
    assert(entries.take(n + 1) =~= entries.take(n).push(entries[n]));
}

proof fn lemma_value_of_push(
    entries: CapturedView,
    last: (Seq<char>, Seq<char>),
    key: Seq<char>,
)
    ensures
        value_of(entries.push(last), key) == match value_of(entries, key) {
            Some(v) => Some(v),
            None => if last.0 == key {
                Some(last.1)
            } else {
                None
            },
        },
    decreases entries.len(),
{
    let longer = entries.push(last);
    if entries.len() == 0 {
        assert(longer.drop_first() =~= entries);
    } else {
        assert(longer.drop_first() =~= entries.drop_first().push(last));
        lemma_value_of_push(entries.drop_first(), last, key);
    }
}

proof fn lemma_merged(values: CapturedView, new: CapturedView, n: int, key: Seq<char>)
    requires
        keys_ascend(values),
        keys_ascend(new),
        0 <= n <= new.len(),
    ensures
        keys_ascend(merged(values, new, n)),
        value_of(merged(values, new, n), key) == match value_of(new.take(n), key) {
            Some(v) => Some(v),
            None => value_of(values, key),
        },
    decreases n,
{
    if n > 0 {
        lemma_merged(values, new, n - 1, key);
        lemma_with_entry(merged(values, new, n - 1), new[n - 1].0, new[n - 1].1);
        if key == new[n - 1].0 {
            lemma_value_absent(new, key, n - 1);
        } else {
            assert(new.take(n) =~= new.take(n - 1).push(new[n - 1]));
            lemma_value_of_push(new.take(n - 1), new[n - 1], key);
        }
    } else {
        assert(new.take(0) =~= Seq::empty());
    }
}

/// Recording captured values gives a key the new value where there is one, and
/// keeps the recorded value otherwise.
pub proof fn law_captures_are_merged(values: CapturedView, new: CapturedView, key: Seq<char>)
    requires
        keys_ascend(values),
        keys_ascend(new),
    ensures
        value_of(merged(values, new, new.len() as int), key) == match value_of(new, key) {
            Some(v) => Some(v),
            None => value_of(values, key),
        },
{
    lemma_merged(values, new, new.len() as int, key);
    assert(new.take(new.len() as int) =~= new);
}

} // verus!
