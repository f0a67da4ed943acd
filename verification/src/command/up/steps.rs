//! What each event of a run of `up` leads to.

use vstd::prelude::*;
use vstd::utf8::encode_utf8;
use crate::command::up::records::{
    digest_of_config, health_plan_of, publisher, with_cluster, with_service, HealthPlanView,
};
use crate::command::up::render::{up_shown, ClusterResultView, ServiceResultView, SetupView};
use crate::command::up::trace::{action_at, run_after};
use crate::command::up::{
    clusters_next, service_result, services_from, up_step, UpActionView, UpEventView, UpPhase,
    UpRunView,
};
use crate::config::document::config_json;
use crate::config::document::laws::{
    config_is_plain, law_config_text_determines_the_config, same_config,
};
use crate::config::{ForgeConfig, NetworkMode, PortMapping, ServiceSpec};
use crate::context::ForgeContext;
use crate::digest::{collide, hex, law_digests_tell_texts_apart, sha256};
use crate::error::ErrorView;
use crate::ip::{ip_value, IpAddr};
use crate::json::compact;
use crate::numeral::decimal;
use crate::state::{
    cluster_position, service_position, ClusterPhase, ClusterView, NetworkPhase, NetworkView,
    OperationView, PoolView, ServiceHealth, ServicePhase, ServiceView, StateView,
};
use crate::text::byte_len;

verus! {

// ---------------------------------------------------------------
// Names
// ---------------------------------------------------------------

/// True when the clusters of a configuration share a network.
pub open spec fn shares_network(ctx: ForgeContext) -> bool {
    ctx.config.spec.network matches Some(network) && network.cross_cluster
}

/// The name of the shared network: that of the environment, and `-net`.
pub open spec fn shared_network(ctx: ForgeContext) -> Seq<char> {
    ctx.config.metadata.name@ + "-net"@
}

/// The KIND name of a configured cluster: the prefix, a hyphen and the name.
pub open spec fn kind_name(ctx: ForgeContext, i: int) -> Seq<char> {
    ctx.config.spec.runtime.cluster_prefix@ + "-"@ + ctx.config.spec.clusters@[i].name@
}

/// The container name of a service: the name of the environment, a hyphen and
/// that of the service.
pub open spec fn container(ctx: ForgeContext, svc: ServiceSpec) -> Seq<char> {
    ctx.config.metadata.name@ + "-"@ + svc.name@
}

/// True when the position of a run is that of a configured service in its order.
pub open spec fn works_on_service(ctx: ForgeContext, run: UpRunView) -> bool {
    &&& run.order is Some
    &&& 0 <= run.next < (run.order->0).len()
    &&& run.order->0[run.next] < ctx.config.spec.services@.len()
}

// ---------------------------------------------------------------
// Opening
// ---------------------------------------------------------------

/// A run looks for the container runtime first, then takes the lock, and reads the
/// state only when it holds it.
pub proof fn law_runs_open_in_order(ctx: ForgeContext, run: UpRunView, now: u64)
    ensures
        run.phase == UpPhase::Start ==> {
            let (after, action) = up_step(ctx, run, UpEventView::Begin, now);
            action is ResolveRuntime && after == (UpRunView { phase: UpPhase::Resolving, ..run })
        },
        run.phase == UpPhase::Locking ==> {
            let (after, action) = up_step(ctx, run, UpEventView::Locked, now);
            action is Load && after == (UpRunView { phase: UpPhase::Loading, ..run })
        },
{
}

/// Clusters that share a network need Docker: with another container runtime the
/// run fails before anything is done. Any other run keeps the runtime that was
/// found and goes on.
pub proof fn law_shared_networks_need_docker(
    ctx: ForgeContext,
    run: UpRunView,
    binary: Seq<char>,
    now: u64,
)
    requires
        run.phase == UpPhase::Resolving,
    ensures
        ({
            let (after, action) = up_step(ctx, run, UpEventView::Resolved(binary), now);
            if shares_network(ctx) && binary != "docker"@ {
                &&& action == UpActionView::Fail(
                    ErrorView::Runtime(
                        "cross-cluster networking requires Docker; the resolved runtime is '"@
                            + binary + "'"@,
                    ),
                )
                &&& after == (UpRunView { phase: UpPhase::Ended, ..run })
            } else {
                &&& action is Lock
                &&& after == (UpRunView { phase: UpPhase::Locking, binary, ..run })
            }
        }),
{
}

/// When the state was read, a real run works on it with the container runtime
/// recorded. Where the clusters share a network, it creates the network next;
/// where they do not, the network phase is over.
pub proof fn law_state_is_taken_over(ctx: ForgeContext, run: UpRunView, st: StateView, now: u64)
    requires
        !ctx.dry_run,
        run.phase == UpPhase::Loading,
    ensures
        ({
            let (after, action) = up_step(ctx, run, UpEventView::Loaded(st), now);
            &&& after.state == (StateView { runtime: Some(run.binary), ..st })
            &&& after.clusters == run.clusters
            &&& after.services == run.services
            &&& shares_network(ctx) ==> {
                &&& action == UpActionView::CreateNetwork { name: shared_network(ctx) }
                &&& after.phase == UpPhase::CreatingNetwork
            }
            &&& !shares_network(ctx) ==> {
                &&& action is Save
                &&& after.phase == UpPhase::SavingNetwork
                &&& after.net is None
            }
        }),
{
}

// ---------------------------------------------------------------
// Network
// ---------------------------------------------------------------

/// When the network was created, it is recorded as active under its name. The
/// address range and the pools that were recorded are kept if they are of this
/// network. Then its address range is looked up.
pub proof fn law_created_networks_are_recorded(ctx: ForgeContext, run: UpRunView, now: u64)
    requires
        run.phase == UpPhase::CreatingNetwork,
    ensures
        ({
            let (after, action) = up_step(ctx, run, UpEventView::NetworkCreated, now);
            let name = shared_network(ctx);
            let kept = run.state.network matches Some(net) && net.name == name;
            &&& action == UpActionView::InspectNetwork { name }
            &&& after.phase == UpPhase::InspectingNetwork
            &&& after.state == (StateView { network: after.state.network, ..run.state })
            &&& after.state.network is Some
            &&& after.state.network->0.name == name
            &&& after.state.network->0.phase == NetworkPhase::Active
            &&& after.state.network->0.cidr == if kept {
                (run.state.network->0).cidr
            } else {
                None
            }
            &&& after.state.network->0.pools == if kept {
                (run.state.network->0).pools
            } else {
                Seq::<PoolView>::empty()
            }
        }),
{
}

/// When the address range of the network is known, it is recorded. The pools that
/// were recorded are kept if they are of this network and this range. The network
/// is listed in the result, and in a real run the state is written.
pub proof fn law_inspected_networks_are_recorded(
    ctx: ForgeContext,
    run: UpRunView,
    cidr: Seq<char>,
    now: u64,
)
    requires
        !ctx.dry_run,
        run.phase == UpPhase::InspectingNetwork,
    ensures
        ({
            let (after, action) = up_step(ctx, run, UpEventView::NetworkInspected(cidr), now);
            let name = shared_network(ctx);
            &&& action is Save
            &&& after.phase == UpPhase::SavingNetwork
            &&& after.net == Some(SetupView { name, dry_run: false })
            &&& after.state == (StateView {
                network: Some(
                    NetworkView {
                        name,
                        phase: NetworkPhase::Active,
                        cidr: Some(cidr),
                        pools: match run.state.network {
                            Some(net) => if net.name == name && net.cidr == Some(cidr) {
                                net.pools
                            } else {
                                Seq::empty()
                            },
                            None => Seq::empty(),
                        },
                    },
                ),
                ..run.state
            })
        }),
{
}

// ---------------------------------------------------------------
// Clusters
// ---------------------------------------------------------------

/// True when a step goes on with the clusters behind those that are listed: it
/// looks up the next one, or has the state written when none is left.
pub open spec fn goes_on_with_clusters(
    ctx: ForgeContext,
    after: UpRunView,
    action: UpActionView,
) -> bool {
    let i = after.clusters.len() as int;
    if i < ctx.config.spec.clusters@.len() {
        &&& action == UpActionView::FindCluster { kind_name: kind_name(ctx, i) }
        &&& after.phase == UpPhase::FindingCluster
    } else {
        &&& action is Save
        &&& after.phase == UpPhase::SavingClusters
    }
}

/// Behind the network phase of a real run every cluster is looked up, from the
/// first on.
pub proof fn law_clusters_are_looked_up(ctx: ForgeContext, run: UpRunView, now: u64)
    requires
        !ctx.dry_run,
        run.phase == UpPhase::SavingNetwork,
    ensures
        ({
            let (after, action) = up_step(ctx, run, UpEventView::Saved, now);
            &&& goes_on_with_clusters(ctx, after, action)
            &&& after.clusters == run.clusters
            &&& after.state == run.state
        }),
{
}

/// A cluster that exists is listed as existing, and one that was created as
/// created, and is recorded as running; then the next cluster is looked up.
/// Nothing but the recorded clusters changes in the state.
pub proof fn law_clusters_are_listed(ctx: ForgeContext, run: UpRunView, created: bool, now: u64)
    requires
        !ctx.dry_run,
        run.phase == if created {
            UpPhase::CreatingCluster
        } else {
            UpPhase::FindingCluster
        },
        run.clusters.len() < ctx.config.spec.clusters@.len(),
    ensures
        ({
            let event = if created {
                UpEventView::ClusterCreated
            } else {
                UpEventView::ClusterFound(true)
            };
            let (after, action) = up_step(ctx, run, event, now);
            let i = run.clusters.len() as int;
            &&& after.clusters == run.clusters.push(
                ClusterResultView {
                    name: ctx.config.spec.clusters@[i].name@,
                    kind_name: kind_name(ctx, i),
                    created,
                    dry_run: false,
                },
            )
            &&& goes_on_with_clusters(ctx, after, action)
            &&& after.state == (StateView {
                clusters: with_cluster(
                    run.state.clusters,
                    ctx.config.spec.clusters@[i].name@,
                    kind_name(ctx, i),
                    ClusterPhase::Running,
                ),
                ..run.state
            })
        }),
{
}

/// A cluster that does not exist is recorded as being created, and is created, on
/// the shared network where there is one, but only behind a write of the state.
pub proof fn law_missing_clusters_are_created(
    ctx: ForgeContext,
    run: UpRunView,
    now: u64,
    later: u64,
)
    requires
        !ctx.dry_run,
        run.phase == UpPhase::FindingCluster,
        run.clusters.len() < ctx.config.spec.clusters@.len(),
    ensures
        ({
            let (noted, first) = up_step(ctx, run, UpEventView::ClusterFound(false), now);
            let (after, second) = up_step(ctx, noted, UpEventView::Saved, later);
            let i = run.clusters.len() as int;
            &&& first is Save
            &&& noted.clusters == run.clusters
            &&& noted.state == (StateView {
                clusters: with_cluster(
                    run.state.clusters,
                    ctx.config.spec.clusters@[i].name@,
                    kind_name(ctx, i),
                    ClusterPhase::Creating,
                ),
                ..run.state
            })
            &&& second == UpActionView::CreateCluster {
                cluster: i,
                kind_name: kind_name(ctx, i),
                network: if shares_network(ctx) {
                    Some(shared_network(ctx))
                } else {
                    None
                },
            }
            &&& after.phase == UpPhase::CreatingCluster
            &&& after.clusters == run.clusters
            &&& after.state == noted.state
        }),
{
}

/// Recording a cluster writes the first entry of that name, or adds one: it gets
/// the phase and the KIND name, and, where it is new or the KIND name has changed,
/// the context `kind-` and the KIND name. Every other entry stays as it was.
pub proof fn law_cluster_phases_are_recorded(
    clusters: Seq<ClusterView>,
    name: Seq<char>,
    kind: Seq<char>,
    phase: ClusterPhase,
)
    ensures
        ({
            let after = with_cluster(clusters, name, kind, phase);
            if exists|i: int| 0 <= i < clusters.len() && (#[trigger] clusters[i]).name == name {
                &&& after.len() == clusters.len()
                &&& forall|i: int|
                    #![trigger after[i]]
                    0 <= i < clusters.len() ==> if clusters[i].name == name && (forall|j: int|
                        0 <= j < i ==> (#[trigger] clusters[j]).name != name) {
                        after[i] == (ClusterView {
                            name,
                            kind_name: kind,
                            context: if clusters[i].kind_name == kind {
                                clusters[i].context
                            } else {
                                "kind-"@ + kind
                            },
                            phase,
                        })
                    } else {
                        after[i] == clusters[i]
                    }
            } else {
                after == clusters.push(
                    ClusterView { name, kind_name: kind, context: "kind-"@ + kind, phase },
                )
            }
        }),
{
    lemma_cluster_entry(clusters, name, 0);
}

proof fn lemma_cluster_entry(clusters: Seq<ClusterView>, name: Seq<char>, i: int)
    requires
        0 <= i,
    ensures
        match cluster_position(clusters, name, i) {
            Some(k) => i <= k < clusters.len() && clusters[k].name == name && forall|m: int|
                i <= m < k ==> (#[trigger] clusters[m]).name != name,
            None => forall|m: int|
                i <= m < clusters.len() ==> (#[trigger] clusters[m]).name != name,
        },
    decreases clusters.len() - i,
{
    if i < clusters.len() {
        lemma_cluster_entry(clusters, name, i + 1);
    }
}

/// What a real run has listed of the network and the clusters at the point it has
/// come to.
spec fn clusters_are_listed(ctx: ForgeContext, run: UpRunView) -> bool {
    let n = ctx.config.spec.clusters@.len();
    let listed = forall|k: int|
        0 <= k < run.clusters.len() ==> {
            &&& (#[trigger] run.clusters[k]).name == ctx.config.spec.clusters@[k].name@
            &&& run.clusters[k].kind_name == kind_name(ctx, k)
            &&& !run.clusters[k].dry_run
        };
    let net = run.net == if shares_network(ctx) {
        Some(SetupView { name: shared_network(ctx), dry_run: false })
    } else {
        None
    };
    match run.phase {
        UpPhase::Start
        | UpPhase::Resolving
        | UpPhase::Locking
        | UpPhase::Loading
        | UpPhase::CreatingNetwork
        | UpPhase::InspectingNetwork => run.clusters.len() == 0 && (run.phase
            == UpPhase::CreatingNetwork || run.phase == UpPhase::InspectingNetwork
            ==> shares_network(ctx)),
        UpPhase::SavingNetwork => run.clusters.len() == 0 && net,
        UpPhase::FindingCluster
        | UpPhase::SavingCreating
        | UpPhase::CreatingCluster => listed && net && run.clusters.len() < n,
        UpPhase::SavingFailure | UpPhase::Ended => true,
        _ => listed && net && run.clusters.len() == n,
    }
}

proof fn lemma_services_keep_lists(
    ctx: ForgeContext,
    run: UpRunView,
    order: Seq<usize>,
    pos: int,
    now: u64,
)
    requires
        !ctx.dry_run,
    ensures
        ({
            let (after, action) = services_from(ctx, run, order, pos, now);
            &&& after.phase == UpPhase::Starting || after.phase == UpPhase::SavingServices
                || after.phase == UpPhase::SavingFailure
            &&& after.clusters == run.clusters
            &&& after.net == run.net
            &&& after.binary == run.binary
            &&& !(action is Show)
            &&& action matches UpActionView::StartService { service, params } ==> {
                let svc = ctx.config.spec.services@[service];
                &&& 0 <= service < ctx.config.spec.services@.len()
                &&& params.binary == run.binary
                &&& params.container_name == container(ctx, svc)
                &&& params.env_name == ctx.config.metadata.name@
                &&& params.config_dir == ctx.config_dir@
                &&& params.state_dir == ctx.state_dir@
            }
        }),
    decreases order.len() - pos,
{
    if 0 <= pos < order.len() && order[pos] < ctx.config.spec.services@.len() {
        let svc = ctx.config.spec.services@[order[pos] as int];
        lemma_services_keep_lists(ctx, run, order, pos + 1, now);
        lemma_services_keep_lists(
            ctx,
            UpRunView { services: run.services.push(service_result(ctx, svc)), ..run },
            order,
            pos + 1,
            now,
        );
    }
}

#[verifier::rlimit(40)]
proof fn lemma_clusters_are_listed(
    ctx: ForgeContext,
    order: Option<Seq<usize>>,
    events: Seq<(UpEventView, u64)>,
    n: int,
)
    requires
        !ctx.dry_run,
        0 <= n <= events.len(),
    ensures
        clusters_are_listed(ctx, run_after(ctx, order, events, n)),
    decreases n,
{
    if n > 0 {
        lemma_clusters_are_listed(ctx, order, events, n - 1);
        let run = run_after(ctx, order, events, n - 1);
        let (event, now) = events[n - 1];
        assert forall|r: UpRunView, o: Seq<usize>, pos: int|
            {
                let (end, action) = #[trigger] services_from(ctx, r, o, pos, now);
                &&& end.phase == UpPhase::Starting || end.phase == UpPhase::SavingServices
                    || end.phase == UpPhase::SavingFailure
                &&& end.clusters == r.clusters
                &&& end.net == r.net
            } by {
            lemma_services_keep_lists(ctx, r, o, pos, now);
        }
        assert(run_after(ctx, order, events, n) == up_step(ctx, run, event, now).0);
    }
}

/// A real run that reports success lists the shared network, where there is one,
/// and every configured cluster under its KIND name, in the order of the
/// configuration.
pub proof fn law_success_lists_the_clusters(
    ctx: ForgeContext,
    order: Option<Seq<usize>>,
    events: Seq<(UpEventView, u64)>,
    n: int,
)
    requires
        !ctx.dry_run,
        0 <= n < events.len(),
        action_at(ctx, order, events, n) is Show,
    ensures
        ({
            let run = run_after(ctx, order, events, n + 1);
            &&& action_at(ctx, order, events, n) == UpActionView::Show(
                up_shown(ctx.format, run.net, run.clusters, run.services),
            )
            &&& run.net == if shares_network(ctx) {
                Some(SetupView { name: shared_network(ctx), dry_run: false })
            } else {
                None
            }
            &&& run.clusters.len() == ctx.config.spec.clusters@.len()
            &&& forall|k: int|
                0 <= k < run.clusters.len() ==> {
                    &&& (#[trigger] run.clusters[k]).name == ctx.config.spec.clusters@[k].name@
                    &&& run.clusters[k].kind_name == kind_name(ctx, k)
                    &&& !run.clusters[k].dry_run
                }
        }),
{
    let run = run_after(ctx, order, events, n);
    let (event, now) = events[n];
    lemma_clusters_are_listed(ctx, order, events, n);
    assert forall|r: UpRunView, o: Seq<usize>, pos: int|
        !((#[trigger] services_from(ctx, r, o, pos, now)).1 is Show) by {
        lemma_services_keep_lists(ctx, r, o, pos, now);
    }
    assert(run_after(ctx, order, events, n + 1) == up_step(ctx, run, event, now).0);
    assert(run.phase == UpPhase::SavingFinal);
}

// ---------------------------------------------------------------
// Dry runs
// ---------------------------------------------------------------

proof fn lemma_dry_services(
    ctx: ForgeContext,
    run: UpRunView,
    order: Seq<usize>,
    pos: int,
    now: u64,
)
    requires
        ctx.dry_run,
    ensures
        ({
            let (after, action) = services_from(ctx, run, order, pos, now);
            &&& action is Show ==> action == UpActionView::Show(
                up_shown(ctx.format, after.net, after.clusters, after.services),
            )
            &&& after.net == run.net
            &&& after.clusters == run.clusters
        }),
    decreases order.len() - pos,
{
    if 0 <= pos < order.len() && order[pos] < ctx.config.spec.services@.len() {
        let svc = ctx.config.spec.services@[order[pos] as int];
        lemma_dry_services(ctx, run, order, pos + 1, now);
        lemma_dry_services(
            ctx,
            UpRunView { services: run.services.push(service_result(ctx, svc)), ..run },
            order,
            pos + 1,
            now,
        );
    }
}

/// A dry run shows the shared network, where there is one, and every configured
/// cluster, in the order of the configuration, as what it would create. It ends
/// as soon as it has read the state.
pub proof fn law_dry_runs_list_everything(
    ctx: ForgeContext,
    run: UpRunView,
    st: StateView,
    now: u64,
)
    requires
        ctx.dry_run,
        run.phase == UpPhase::Loading,
    ensures
        ({
            let (after, action) = up_step(ctx, run, UpEventView::Loaded(st), now);
            &&& after.phase == UpPhase::Ended
            &&& action is Show || action is Fail
            &&& action is Show ==> {
                &&& action == UpActionView::Show(
                    up_shown(ctx.format, after.net, after.clusters, after.services),
                )
                &&& after.net == if shares_network(ctx) {
                    Some(SetupView { name: shared_network(ctx), dry_run: true })
                } else {
                    None
                }
                &&& after.clusters.len() == ctx.config.spec.clusters@.len()
                &&& forall|k: int|
                    0 <= k < after.clusters.len() ==> {
                        &&& (#[trigger] after.clusters[k]).name
                            == ctx.config.spec.clusters@[k].name@
                        &&& after.clusters[k].kind_name == kind_name(ctx, k)
                        &&& after.clusters[k].dry_run
                        &&& !after.clusters[k].created
                    }
            }
        }),
{
    assert forall|r: UpRunView, o: Seq<usize>, pos: int|
        {
            let (after, action) = #[trigger] services_from(ctx, r, o, pos, now);
            &&& action is Show ==> action == UpActionView::Show(
                up_shown(ctx.format, after.net, after.clusters, after.services),
            )
            &&& after.net == r.net
            &&& after.clusters == r.clusters
        } by {
        lemma_dry_services(ctx, r, o, pos, now);
    }
    crate::command::up::laws::law_dry_run_changes_nothing(ctx, run, UpEventView::Loaded(st), now);
    lemma_dry_ends(ctx, now);
}

/// Behind the network phase a dry run has ended.
proof fn lemma_dry_ends(ctx: ForgeContext, now: u64)
    requires
        ctx.dry_run,
    ensures
        forall|r: UpRunView|
            (#[trigger] clusters_next(ctx, r, now)).0.phase == UpPhase::Ended && (clusters_next(
                ctx,
                r,
                now,
            ).1 is Show || clusters_next(ctx, r, now).1 is Fail),
{
    assert forall|r: UpRunView, o: Seq<usize>, pos: int|
        {
            let (after, action) = #[trigger] services_from(ctx, r, o, pos, now);
            after.phase == UpPhase::Ended && (action is Show || action is Fail)
        } by {
        lemma_dry_services_end(ctx, r, o, pos, now);
    }
}

proof fn lemma_dry_services_end(
    ctx: ForgeContext,
    run: UpRunView,
    order: Seq<usize>,
    pos: int,
    now: u64,
)
    requires
        ctx.dry_run,
    ensures
        ({
            let (after, action) = services_from(ctx, run, order, pos, now);
            after.phase == UpPhase::Ended && (action is Show || action is Fail)
        }),
    decreases order.len() - pos,
{
    if 0 <= pos < order.len() && order[pos] < ctx.config.spec.services@.len() {
        let svc = ctx.config.spec.services@[order[pos] as int];
        lemma_dry_services_end(ctx, run, order, pos + 1, now);
        lemma_dry_services_end(
            ctx,
            UpRunView { services: run.services.push(service_result(ctx, svc)), ..run },
            order,
            pos + 1,
            now,
        );
    }
}

// ---------------------------------------------------------------
// Services
// ---------------------------------------------------------------

/// A service is started with the container runtime of the run, under a container
/// name made of the names of the environment and the service, and is told the
/// environment and the directories of the configuration and the state.
pub proof fn law_services_are_told_the_environment(
    ctx: ForgeContext,
    run: UpRunView,
    event: UpEventView,
    now: u64,
)
    requires
        !ctx.dry_run,
    ensures
        ({
            let (after, action) = up_step(ctx, run, event, now);
            action matches UpActionView::StartService { service, params } ==> {
                &&& 0 <= service < ctx.config.spec.services@.len()
                &&& params.binary == after.binary
                &&& params.container_name == container(ctx, ctx.config.spec.services@[service])
                &&& params.env_name == ctx.config.metadata.name@
                &&& params.config_dir == ctx.config_dir@
                &&& params.state_dir == ctx.state_dir@
            }
        }),
{
    assert forall|r: UpRunView, o: Seq<usize>, pos: int|
        {
            let (after, action) = #[trigger] services_from(ctx, r, o, pos, now);
            &&& after.binary == r.binary
            &&& action matches UpActionView::StartService { service, params } ==> {
                &&& 0 <= service < ctx.config.spec.services@.len()
                &&& params.binary == r.binary
                &&& params.container_name == container(ctx, ctx.config.spec.services@[service])
                &&& params.env_name == ctx.config.metadata.name@
                &&& params.config_dir == ctx.config_dir@
                &&& params.state_dir == ctx.state_dir@
            }
        } by {
        lemma_services_keep_lists(ctx, r, o, pos, now);
    }
}

/// Where a mapping can be reached from the host: at its own address, or, if it
/// listens everywhere, at the loopback address of the same family.
pub open spec fn reachable_at(port: PortMapping) -> Seq<char> {
    match port.bind_address {
        None => "127.0.0.1"@,
        Some(text) => if ip_value(text@) == Some(IpAddr::V4(0)) {
            "127.0.0.1"@
        } else if ip_value(text@) == Some(IpAddr::V6 { high: 0, low: 0 }) {
            "::1"@
        } else {
            text@
        },
    }
}

/// True when mapping `i` is the first that publishes a container port over TCP.
pub open spec fn is_first_publisher(ports: Seq<PortMapping>, container: u16, i: int) -> bool {
    &&& 0 <= i < ports.len()
    &&& ports[i].container == container && ports[i].protocol@ == "tcp"@
    &&& forall|j: int|
        0 <= j < i ==> !((#[trigger] ports[j]).container == container && ports[j].protocol@
            == "tcp"@)
}

proof fn lemma_publisher(ports: Seq<PortMapping>, container: u16, i: int)
    requires
        0 <= i,
    ensures
        match publisher(ports, container, i) {
            Some(k) => i <= k < ports.len() && ports[k].container == container
                && ports[k].protocol@ == "tcp"@ && forall|j: int|
                i <= j < k ==> !((#[trigger] ports[j]).container == container && ports[j].protocol@
                    == "tcp"@),
            None => forall|j: int|
                i <= j < ports.len() ==> !((#[trigger] ports[j]).container == container
                    && ports[j].protocol@ == "tcp"@),
        },
    decreases ports.len() - i,
{
    if i < ports.len() {
        lemma_publisher(ports, container, i + 1);
    }
}

/// How the health of a service is found out. Without a health check it stays
/// unknown. On the network of the host the port itself is probed on the loopback
/// address. Otherwise the host port of the first mapping that publishes the port
/// over TCP is probed, at the address where that mapping can be reached; where
/// nothing publishes it, the service counts as unhealthy.
pub proof fn law_probes_reach_the_published_port(svc: ServiceSpec)
    ensures
        match svc.health_check {
            None => health_plan_of(svc) == HealthPlanView::Known(ServiceHealth::Unknown),
            Some(check) => if svc.network == NetworkMode::Host {
                health_plan_of(svc) == (HealthPlanView::Probe {
                    addr: "127.0.0.1"@,
                    port: check.port,
                })
            } else {
                &&& forall|i: int|
                    #[trigger] is_first_publisher(svc.ports@, check.port, i) ==> health_plan_of(svc)
                        == (HealthPlanView::Probe {
                        addr: reachable_at(svc.ports@[i]),
                        port: svc.ports@[i].host,
                    })
                &&& (forall|i: int|
                    0 <= i < svc.ports@.len() ==> !((#[trigger] svc.ports@[i]).container
                        == check.port && svc.ports@[i].protocol@ == "tcp"@)) ==> health_plan_of(svc)
                    == HealthPlanView::Known(ServiceHealth::Unhealthy)
            },
        },
{
    if let Some(check) = svc.health_check {
        lemma_publisher(svc.ports@, check.port, 0);
    }
}

/// A service that was started is probed where its health check says, or counts as
/// running without a probe where it has none.
pub proof fn law_started_services_are_probed(ctx: ForgeContext, run: UpRunView, now: u64)
    requires
        !ctx.dry_run,
        run.phase == UpPhase::Starting,
        works_on_service(ctx, run),
    ensures
        ({
            let s = run.order->0[run.next] as int;
            let svc = ctx.config.spec.services@[s];
            let (after, action) = up_step(ctx, run, UpEventView::Started, now);
            match health_plan_of(svc) {
                HealthPlanView::Probe { addr, port } => {
                    &&& action == UpActionView::ProbeHealth { service: s, addr, port }
                    &&& after == (UpRunView { phase: UpPhase::Probing, ..run })
                },
                HealthPlanView::Known(health) => {
                    &&& after.state.services == with_service(
                        run.state.services,
                        svc,
                        container(ctx, svc),
                        health,
                        now,
                    )
                    &&& !(action is ProbeHealth)
                },
            }
        }),
{
    assert forall|r: UpRunView, o: Seq<usize>, pos: int|
        (#[trigger] services_from(ctx, r, o, pos, now)).0.state.services == r.state.services && !(
        services_from(ctx, r, o, pos, now).1 is ProbeHealth) by {
        lemma_services_keep_records(ctx, r, o, pos, now);
    }
}

proof fn lemma_services_keep_records(
    ctx: ForgeContext,
    run: UpRunView,
    order: Seq<usize>,
    pos: int,
    now: u64,
)
    ensures
        ({
            let (after, action) = services_from(ctx, run, order, pos, now);
            &&& after.state.services == run.state.services
            &&& after.state.clusters == run.state.clusters
            &&& after.state.network == run.state.network
            &&& after.state.runtime == run.state.runtime
            &&& !(action is ProbeHealth)
        }),
    decreases order.len() - pos,
{
    if 0 <= pos < order.len() && order[pos] < ctx.config.spec.services@.len() {
        let svc = ctx.config.spec.services@[order[pos] as int];
        lemma_services_keep_records(ctx, run, order, pos + 1, now);
        lemma_services_keep_records(
            ctx,
            UpRunView { services: run.services.push(service_result(ctx, svc)), ..run },
            order,
            pos + 1,
            now,
        );
    }
}

/// A service whose probe passed is recorded as healthy, and one whose probe did
/// not as unhealthy, at the time of the probe.
pub proof fn law_probes_are_recorded(ctx: ForgeContext, run: UpRunView, passed: bool, now: u64)
    requires
        !ctx.dry_run,
        run.phase == UpPhase::Probing,
        works_on_service(ctx, run),
    ensures
        ({
            let svc = ctx.config.spec.services@[run.order->0[run.next] as int];
            let (after, action) = up_step(ctx, run, UpEventView::Probed(passed), now);
            &&& after.state.services == with_service(
                run.state.services,
                svc,
                container(ctx, svc),
                if passed {
                    ServiceHealth::Healthy
                } else {
                    ServiceHealth::Unhealthy
                },
                now,
            )
            &&& after.state.clusters == run.state.clusters
            &&& after.state.network == run.state.network
            &&& after.state.runtime == run.state.runtime
            &&& passed ==> action is StartService || action is Save
            &&& passed ==> after.phase != UpPhase::SavingFailure || after.failure->0
                == crate::command::up::index_out_of_range()
        }),
{
    assert forall|r: UpRunView, o: Seq<usize>, pos: int|
        {
            let (after, action) = #[trigger] services_from(ctx, r, o, pos, now);
            &&& after.state.services == r.state.services
            &&& after.state.clusters == r.state.clusters
            &&& after.state.network == r.state.network
            &&& after.state.runtime == r.state.runtime
        } by {
        lemma_services_keep_records(ctx, r, o, pos, now);
    }
    assert forall|r: UpRunView, o: Seq<usize>, pos: int|
        {
            let (after, action) = #[trigger] services_from(ctx, r, o, pos, now);
            &&& action is StartService || action is Save
            &&& after.phase != UpPhase::SavingFailure || after.failure->0
                == crate::command::up::index_out_of_range()
        } by {
        lemma_services_fail_for_one_reason(ctx, r, o, pos, now);
    }
}

proof fn lemma_services_fail_for_one_reason(
    ctx: ForgeContext,
    run: UpRunView,
    order: Seq<usize>,
    pos: int,
    now: u64,
)
    requires
        !ctx.dry_run,
    ensures
        ({
            let (after, action) = services_from(ctx, run, order, pos, now);
            &&& action is StartService || action is Save
            &&& after.phase != UpPhase::SavingFailure || after.failure->0
                == crate::command::up::index_out_of_range()
        }),
    decreases order.len() - pos,
{
    if 0 <= pos < order.len() && order[pos] < ctx.config.spec.services@.len() {
        lemma_services_fail_for_one_reason(ctx, run, order, pos + 1, now);
    }
}

proof fn lemma_service_entry(services: Seq<ServiceView>, name: Seq<char>, i: int)
    requires
        0 <= i,
    ensures
        match service_position(services, name, i) {
            Some(k) => i <= k < services.len() && services[k].name == name && forall|m: int|
                i <= m < k ==> (#[trigger] services[m]).name != name,
            None => forall|m: int|
                i <= m < services.len() ==> (#[trigger] services[m]).name != name,
        },
    decreases services.len() - i,
{
    if i < services.len() {
        lemma_service_entry(services, name, i + 1);
    }
}

/// Recording the health of a service writes the first entry of that name, or adds
/// one with the container name and the image: it is unhealthy where the health is
/// bad and running otherwise. Every other entry stays as it was.
pub proof fn law_service_health_is_recorded(
    services: Seq<ServiceView>,
    svc: ServiceSpec,
    cname: Seq<char>,
    health: ServiceHealth,
    now: u64,
)
    ensures
        ({
            let after = with_service(services, svc, cname, health, now);
            let phase = if health == ServiceHealth::Unhealthy {
                ServicePhase::Unhealthy
            } else {
                ServicePhase::Running
            };
            if exists|i: int| 0 <= i < services.len() && (#[trigger] services[i]).name == svc.name@ {
                &&& after.len() == services.len()
                &&& forall|i: int|
                    #![trigger after[i]]
                    0 <= i < services.len() ==> if services[i].name == svc.name@ && (forall|j: int|
                        0 <= j < i ==> (#[trigger] services[j]).name != svc.name@) {
                        after[i] == (ServiceView {
                            phase,
                            health,
                            last_observed: now,
                            ..services[i]
                        })
                    } else {
                        after[i] == services[i]
                    }
            } else {
                after == services.push(
                    ServiceView {
                        name: svc.name@,
                        container_name: cname,
                        image: svc.image@,
                        phase,
                        health,
                        last_observed: now,
                    },
                )
            }
        }),
{
    lemma_service_entry(services, svc.name@, 0);
}

/// The report on an unhealthy service names the service, its container and how
/// often it was probed.
pub proof fn law_unhealthy_services_are_named(
    ctx: ForgeContext,
    run: UpRunView,
    now: u64,
    later: u64,
)
    requires
        !ctx.dry_run,
        run.phase == UpPhase::Probing,
        works_on_service(ctx, run),
        ctx.config.spec.services@[run.order->0[run.next] as int].health_check is Some,
    ensures
        ({
            let svc = ctx.config.spec.services@[run.order->0[run.next] as int];
            let failed = up_step(ctx, run, UpEventView::Probed(false), now).0;
            let action = up_step(ctx, failed, UpEventView::Saved, later).1;
            &&& action == UpActionView::Fail(
                ErrorView::Runtime(
                    "service '"@ + svc.name@ + "' (container: "@ + container(ctx, svc)
                        + ") failed its health check after "@ + (decimal(
                        (svc.health_check->0).retries as nat,
                    ) + " retries"@),
                ),
            )
            &&& failed.state.last_operation == Some(
                OperationView { operation: "up"@, success: false, timestamp: now },
            )
            &&& failed.services == run.services
        }),
{
}

/// Without a full start order a real run with services fails, once the state that
/// says so is written.
pub proof fn law_cycles_fail_the_run(ctx: ForgeContext, run: UpRunView, now: u64, later: u64)
    requires
        !ctx.dry_run,
        run.phase == UpPhase::SavingClusters,
        run.order is None,
        ctx.config.spec.services@.len() > 0,
        forall|k: int| 0 <= k < run.state.clusters.len() ==> (
        #[trigger] run.state.clusters[k]).phase != ClusterPhase::Running,
    ensures
        ({
            let (failed, action) = up_step(ctx, run, UpEventView::Saved, now);
            &&& action is Save
            &&& failed.state.last_operation == Some(
                OperationView { operation: "up"@, success: false, timestamp: now },
            )
            &&& up_step(ctx, failed, UpEventView::Saved, later).1 == UpActionView::Fail(
                ErrorView::Validation("service dependency cycle detected"@),
            )
        }),
{
    lemma_none_running(run.state.clusters, 0);
}

proof fn lemma_none_running(clusters: Seq<crate::state::ClusterView>, k: int)
    requires
        0 <= k,
        forall|j: int| 0 <= j < clusters.len() ==> (#[trigger] clusters[j]).phase
            != ClusterPhase::Running,
    ensures
        crate::command::up::next_running(clusters, k) is None,
    decreases clusters.len() - k,
{
    if k < clusters.len() {
        lemma_none_running(clusters, k + 1);
    }
}

// ---------------------------------------------------------------
// Failures
// ---------------------------------------------------------------

/// A failure while the network or a cluster is worked on, or a service is started,
/// is written to the state of a real run before it is reported. A failure to open
/// the run, to write the state or to export a kubeconfig is reported at once, and
/// the state stays as it is.
pub proof fn law_failures_are_written_or_reported(
    ctx: ForgeContext,
    run: UpRunView,
    error: ErrorView,
    now: u64,
)
    requires
        !ctx.dry_run,
    ensures
        ({
            let (after, action) = up_step(ctx, run, UpEventView::Failed(error), now);
            match run.phase {
                UpPhase::CreatingNetwork
                | UpPhase::InspectingNetwork
                | UpPhase::FindingCluster
                | UpPhase::SavingCreating
                | UpPhase::CreatingCluster
                | UpPhase::Starting => {
                    &&& action is Save
                    &&& after.phase == UpPhase::SavingFailure
                    &&& after.failure == Some(error)
                    &&& after.state == (StateView {
                        last_operation: Some(
                            OperationView { operation: "up"@, success: false, timestamp: now },
                        ),
                        ..run.state
                    })
                },
                UpPhase::Probing => works_on_service(ctx, run) ==> action is Save && after.phase
                    == UpPhase::SavingFailure,
                UpPhase::SavingFailure => action is Fail && after.state == run.state,
                _ => {
                    &&& action == UpActionView::Fail(error)
                    &&& after.phase == UpPhase::Ended
                    &&& after.state == run.state
                },
            }
        }),
{
}

/// When the state of a failed run could be written, the failure is reported as it
/// was; when it could not, the report is a state error that holds both texts.
pub proof fn law_failed_runs_end(
    ctx: ForgeContext,
    run: UpRunView,
    error: ErrorView,
    lost: ErrorView,
    now: u64,
)
    requires
        run.phase == UpPhase::SavingFailure,
        run.failure == Some(error),
    ensures
        up_step(ctx, run, UpEventView::Saved, now).1 == UpActionView::Fail(error),
        up_step(ctx, run, UpEventView::Saved, now).0.state == run.state,
        up_step(ctx, run, UpEventView::Failed(lost), now).1 matches UpActionView::Fail(report)
            && report is State,
{
}

// ---------------------------------------------------------------
// The end
// ---------------------------------------------------------------

/// When the state was written behind the service phase, the digest of the
/// configuration and the success are recorded and the state is written once more;
/// then the result is shown. Nothing else changes in the state.
pub proof fn law_real_runs_end_with_a_record(
    ctx: ForgeContext,
    run: UpRunView,
    now: u64,
    later: u64,
)
    requires
        !ctx.dry_run,
        run.phase == UpPhase::SavingServices,
        byte_len(compact(config_json(*ctx.config, ctx.config.spec.stacks@))) < 0x2000_0000_0000_0000,
    ensures
        ({
            let (done, first) = up_step(ctx, run, UpEventView::Saved, now);
            let (after, second) = up_step(ctx, done, UpEventView::Saved, later);
            &&& first is Save
            &&& done.state == (StateView {
                config_digest: digest_of_config(*ctx.config),
                last_operation: Some(
                    OperationView { operation: "up"@, success: true, timestamp: now },
                ),
                ..run.state
            })
            &&& done.state.config_digest is Some
            &&& second == UpActionView::Show(
                up_shown(ctx.format, run.net, run.clusters, run.services),
            )
            &&& after.state == done.state
        }),
{
}

/// The digest of a configuration is the SHA-256 of its compact JSON text, in
/// hexadecimal.
pub proof fn law_configurations_are_digested_as_json(config: ForgeConfig)
    requires
        byte_len(compact(config_json(config, config.spec.stacks@))) < 0x2000_0000_0000_0000,
    ensures
        digest_of_config(config) == Some(
            hex(sha256(encode_utf8(compact(config_json(config, config.spec.stacks@))))),
        ),
{
}

/// Two configurations that differ in any field have different digests, unless
/// SHA-256 takes the texts of both to the same digest; configurations that agree
/// have the same.
pub proof fn law_digests_tell_configurations_apart(a: ForgeConfig, b: ForgeConfig)
    requires
        config_is_plain(a),
        config_is_plain(b),
        byte_len(compact(config_json(a, a.spec.stacks@))) < 0x2000_0000_0000_0000,
        byte_len(compact(config_json(b, b.spec.stacks@))) < 0x2000_0000_0000_0000,
    ensures
        digest_of_config(a) is Some,
        same_config(a, b) ==> digest_of_config(a) == digest_of_config(b),
        !same_config(a, b) ==> digest_of_config(a) != digest_of_config(b) || collide(
            encode_utf8(compact(config_json(a, a.spec.stacks@))),
            encode_utf8(compact(config_json(b, b.spec.stacks@))),
        ),
{
    law_config_text_determines_the_config(a, b);
    if digest_of_config(a) == digest_of_config(b) {
        law_digests_tell_texts_apart(
            compact(config_json(a, a.spec.stacks@)),
            compact(config_json(b, b.spec.stacks@)),
        );
    }
}

/// A real run records its success only when the state was written behind the
/// service phase.
pub proof fn law_success_waits_for_the_services(
    ctx: ForgeContext,
    run: UpRunView,
    event: UpEventView,
    now: u64,
)
    requires
        !ctx.dry_run,
        up_step(ctx, run, event, now).0.phase == UpPhase::SavingFinal,
    ensures
        run.phase == UpPhase::SavingServices,
        event is Saved,
{
    assert forall|r: UpRunView, o: Seq<usize>, pos: int|
        (#[trigger] services_from(ctx, r, o, pos, now)).0.phase != UpPhase::SavingFinal by {
        lemma_services_keep_lists(ctx, r, o, pos, now);
    }
}

/// Without services, nothing is exported: behind the cluster phase the state of a
/// real run is written once more, with no service listed in between.
pub proof fn law_nothing_is_exported_without_services(ctx: ForgeContext, run: UpRunView, now: u64)
    requires
        !ctx.dry_run,
        run.phase == UpPhase::SavingClusters,
        ctx.config.spec.services@.len() == 0,
    ensures
        up_step(ctx, run, UpEventView::Saved, now) == (
            UpRunView { phase: UpPhase::SavingServices, ..run },
            UpActionView::Save,
        ),
{
}

/// A service is listed by its name and its container name, and as started or, in a
/// dry run, as one that would be.
pub proof fn law_services_are_listed_by_name(ctx: ForgeContext, svc: ServiceSpec)
    ensures
        service_result(ctx, svc) == (ServiceResultView {
            name: svc.name@,
            container_name: container(ctx, svc),
            dry_run: ctx.dry_run,
        }),
{
}

/// True when a run waits for an event at the point it has come to.
pub open spec fn is_awaited(ctx: ForgeContext, run: UpRunView, event: UpEventView) -> bool {
    match event {
        UpEventView::Begin => run.phase == UpPhase::Start,
        UpEventView::Resolved(_) => run.phase == UpPhase::Resolving,
        UpEventView::Locked => run.phase == UpPhase::Locking,
        UpEventView::Loaded(_) => run.phase == UpPhase::Loading,
        UpEventView::NetworkCreated => run.phase == UpPhase::CreatingNetwork,
        UpEventView::NetworkInspected(_) => run.phase == UpPhase::InspectingNetwork,
        UpEventView::ClusterFound(_) => run.phase == UpPhase::FindingCluster && run.clusters.len()
            < ctx.config.spec.clusters@.len(),
        UpEventView::ClusterCreated => run.phase == UpPhase::CreatingCluster && run.clusters.len()
            < ctx.config.spec.clusters@.len(),
        UpEventView::Exported => run.phase == UpPhase::Exporting && run.next
            < run.state.clusters.len(),
        UpEventView::Started => run.phase == UpPhase::Starting && works_on_service(ctx, run),
        UpEventView::Probed(_) => run.phase == UpPhase::Probing && works_on_service(ctx, run),
        UpEventView::Saved => {
            ||| run.phase == UpPhase::SavingNetwork
            ||| run.phase == UpPhase::SavingCreating && run.clusters.len()
                < ctx.config.spec.clusters@.len()
            ||| run.phase == UpPhase::SavingClusters
            ||| run.phase == UpPhase::SavingServices
            ||| run.phase == UpPhase::SavingFinal
            ||| run.phase == UpPhase::SavingFailure
        },
        UpEventView::Failed(_) => true,
    }
}

/// An event that a run does not wait for ends it with an error, and the state
/// stays as it is.
pub proof fn law_unexpected_events_end_the_run(
    ctx: ForgeContext,
    run: UpRunView,
    event: UpEventView,
    now: u64,
)
    requires
        !is_awaited(ctx, run, event),
    ensures
        up_step(ctx, run, event, now) == (
            UpRunView { phase: UpPhase::Ended, ..run },
            UpActionView::Fail(ErrorView::State("up command is out of step"@)),
        ),
{
}

/// True when a run has an order for its services that names configured services
/// only, or no services to start.
pub open spec fn can_start_services(ctx: ForgeContext, run: UpRunView) -> bool {
    ctx.config.spec.services@.len() == 0 || (run.order matches Some(order) && forall|i: int|
        0 <= i < order.len() ==> #[trigger] order[i] < ctx.config.spec.services@.len())
}

proof fn lemma_services_go_well(
    ctx: ForgeContext,
    run: UpRunView,
    order: Seq<usize>,
    pos: int,
    now: u64,
)
    requires
        forall|i: int|
            0 <= i < order.len() ==> #[trigger] order[i] < ctx.config.spec.services@.len(),
        digest_of_config(*ctx.config) is Some,
    ensures
        ({
            let (after, action) = services_from(ctx, run, order, pos, now);
            &&& !(action is Fail)
            &&& after.phase != UpPhase::SavingFailure
            &&& ctx.dry_run ==> action is Show
        }),
    decreases order.len() - pos,
{
    if 0 <= pos < order.len() {
        assert(order[pos] < ctx.config.spec.services@.len());
        let svc = ctx.config.spec.services@[order[pos] as int];
        lemma_services_go_well(ctx, run, order, pos + 1, now);
        lemma_services_go_well(
            ctx,
            UpRunView { services: run.services.push(service_result(ctx, svc)), ..run },
            order,
            pos + 1,
            now,
        );
    }
}

/// A real run fails only for a cause: as long as every action succeeds, every
/// probe passes, the container runtime is one that the network can use, and every
/// health check can be probed, the run neither fails nor records a failure. With
/// the distance to its end, which every event shortens, it ends in success.
pub proof fn law_runs_fail_only_for_a_cause(
    ctx: ForgeContext,
    run: UpRunView,
    event: UpEventView,
    now: u64,
)
    requires
        !ctx.dry_run,
        is_awaited(ctx, run, event),
        run.phase != UpPhase::SavingFailure,
        !(event is Failed),
        event != UpEventView::Probed(false),
        event matches UpEventView::Resolved(binary) ==> !shares_network(ctx) || binary == "docker"@,
        event is Started ==> health_plan_of(
            ctx.config.spec.services@[run.order->0[run.next] as int],
        ) != HealthPlanView::Known(ServiceHealth::Unhealthy),
        can_start_services(ctx, run),
        byte_len(compact(config_json(*ctx.config, ctx.config.spec.stacks@))) < 0x2000_0000_0000_0000,
    ensures
        !(up_step(ctx, run, event, now).1 is Fail),
        up_step(ctx, run, event, now).0.phase != UpPhase::SavingFailure,
        up_step(ctx, run, event, now).0.order == run.order,
{
    assert forall|r: UpRunView, o: Seq<usize>, pos: int|
        (forall|i: int| 0 <= i < o.len() ==> #[trigger] o[i] < ctx.config.spec.services@.len())
            implies {
        let (after, action) = #[trigger] services_from(ctx, r, o, pos, now);
        &&& !(action is Fail)
        &&& after.phase != UpPhase::SavingFailure
    } by {
        lemma_services_go_well(ctx, r, o, pos, now);
    }
    assert forall|r: UpRunView, o: Seq<usize>, pos: int|
        (#[trigger] services_from(ctx, r, o, pos, now)).0.order == r.order by {
        lemma_services_keep_order(ctx, r, o, pos, now);
    }
}

proof fn lemma_services_keep_order(
    ctx: ForgeContext,
    run: UpRunView,
    order: Seq<usize>,
    pos: int,
    now: u64,
)
    ensures
        services_from(ctx, run, order, pos, now).0.order == run.order,
    decreases order.len() - pos,
{
    if 0 <= pos < order.len() && order[pos] < ctx.config.spec.services@.len() {
        let svc = ctx.config.spec.services@[order[pos] as int];
        lemma_services_keep_order(ctx, run, order, pos + 1, now);
        lemma_services_keep_order(
            ctx,
            UpRunView { services: run.services.push(service_result(ctx, svc)), ..run },
            order,
            pos + 1,
            now,
        );
    }
}

/// A dry run that can start its services shows its result as soon as it has read
/// the state.
pub proof fn law_dry_runs_succeed(ctx: ForgeContext, run: UpRunView, st: StateView, now: u64)
    requires
        ctx.dry_run,
        run.phase == UpPhase::Loading,
        can_start_services(ctx, run),
        byte_len(compact(config_json(*ctx.config, ctx.config.spec.stacks@))) < 0x2000_0000_0000_0000,
    ensures
        up_step(ctx, run, UpEventView::Loaded(st), now).1 is Show,
{
    assert forall|r: UpRunView, o: Seq<usize>, pos: int|
        (forall|i: int| 0 <= i < o.len() ==> #[trigger] o[i] < ctx.config.spec.services@.len())
            implies (#[trigger] services_from(ctx, r, o, pos, now)).1 is Show by {
        lemma_services_go_well(ctx, r, o, pos, now);
    }
}

} // verus!
