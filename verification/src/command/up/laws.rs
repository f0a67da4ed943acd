//! What holds of every run of `up`.

use vstd::prelude::*;
use crate::command::up::records::{
    digest_of_config, law_cluster_entry_follows_the_kind_name, with_cluster, with_service,
};
use crate::command::up::render::{ClusterResultView, ServiceResultView};
use crate::command::up::{
    at_cluster, at_service, cluster_found, cluster_ready, clusters_next, dry_clusters, exports_from,
    is_checkpointed, kind_name_in, lost_checkpoint, new_up_run, next_running, service_observed,
    service_result, services_begin, services_from, up_failed, up_network, up_opening, up_saved,
    up_step, with_cluster_phase, UpActionView, UpEventView, UpPhase, UpRunView,
};
use crate::config::validate::deps::{depends, lemma_provider};
use crate::config::validate::laws::{accepted, law_auto_start_is_closed};
use crate::context::ForgeContext;
use crate::error::{error_text, ErrorView};
use crate::naming::{container_name_of, network_name_of};
use crate::service::{is_start_order, lists_service};
use crate::state::{
    cluster_position, service_position, ClusterPhase, ClusterView, NetworkPhase, OperationView,
    ServiceHealth, ServicePhase, ServiceView, StateView,
};

verus! {

// ---------------------------------------------------------------
// Dry runs
// ---------------------------------------------------------------

/// The points that a dry run passes through.
pub open spec fn is_dry_phase(phase: UpPhase) -> bool {
    ||| phase == UpPhase::Start
    ||| phase == UpPhase::Resolving
    ||| phase == UpPhase::Locking
    ||| phase == UpPhase::Loading
    ||| phase == UpPhase::Ended
}

/// True when an action changes nothing: it only looks or reports.
pub open spec fn is_harmless(action: UpActionView) -> bool {
    ||| action is ResolveRuntime
    ||| action is Lock
    ||| action is Load
    ||| action is Show
    ||| action is Fail
}

proof fn lemma_dry_services(
    ctx: ForgeContext,
    run: UpRunView,
    order: Seq<usize>,
    pos: int,
    now: u64,
)
    requires
        ctx.dry_run,
    ensures
        services_from(ctx, run, order, pos, now).0.phase == UpPhase::Ended,
        is_harmless(services_from(ctx, run, order, pos, now).1),
    decreases order.len() - pos,
{
    if 0 <= pos < order.len() && order[pos] < ctx.config.spec.services@.len() {
        let svc = ctx.config.spec.services@[order[pos] as int];
        lemma_dry_services(ctx, run, order, pos + 1, now);
        lemma_dry_services(
            ctx,
            UpRunView { services: run.services.push(service_result(ctx, svc)), ..run },
            order,
            pos + 1,
            now,
        );
    }
}

/// A dry run changes nothing: it creates no network and no cluster, writes no
/// kubeconfig and no state, and starts no service.
pub proof fn law_dry_run_changes_nothing(
    ctx: ForgeContext,
    run: UpRunView,
    event: UpEventView,
    now: u64,
)
    requires
        ctx.dry_run,
        is_dry_phase(run.phase),
    ensures
        is_dry_phase(up_step(ctx, run, event, now).0.phase),
        is_harmless(up_step(ctx, run, event, now).1),
{
    assert forall|r: UpRunView| (#[trigger] services_begin(ctx, r, now)).0.phase == UpPhase::Ended
        && is_harmless(services_begin(ctx, r, now).1) by {
        if let Some(order) = r.order {
            lemma_dry_services(ctx, r, order, 0, now);
        }
    }
}

// ---------------------------------------------------------------
// Clusters
// ---------------------------------------------------------------

/// What the state says of the cluster that a run works on.
pub open spec fn current_cluster_phase(ctx: ForgeContext, run: UpRunView) -> Option<ClusterPhase> {
    let name = ctx.config.spec.clusters@[run.clusters.len() as int].name@;
    match cluster_position(run.state.clusters, name, 0) {
        Some(i) => Some(run.state.clusters[i].phase),
        None => None,
    }
}

proof fn lemma_services_phase(
    ctx: ForgeContext,
    run: UpRunView,
    order: Seq<usize>,
    pos: int,
    now: u64,
)
    ensures
        ({
            let (after, action) = services_from(ctx, run, order, pos, now);
            &&& after.phase != UpPhase::SavingCreating
            &&& !(action is CreateCluster)
            &&& !(action is InspectNetwork)
            &&& !(action is ExportKubeconfig)
        }),
    decreases order.len() - pos,
{
    if 0 <= pos < order.len() && order[pos] < ctx.config.spec.services@.len() {
        let svc = ctx.config.spec.services@[order[pos] as int];
        lemma_services_phase(ctx, run, order, pos + 1, now);
        lemma_services_phase(
            ctx,
            UpRunView { services: run.services.push(service_result(ctx, svc)), ..run },
            order,
            pos + 1,
            now,
        );
    }
}

proof fn lemma_services_phase_all(ctx: ForgeContext, now: u64)
    ensures
        forall|r: UpRunView, order: Seq<usize>, pos: int|
            {
                let (after, action) = #[trigger] services_from(ctx, r, order, pos, now);
                &&& after.phase != UpPhase::SavingCreating
                &&& !(action is CreateCluster)
                &&& !(action is InspectNetwork)
                &&& !(action is ExportKubeconfig)
            },
{
    assert forall|r: UpRunView, order: Seq<usize>, pos: int|
        {
            let (after, action) = #[trigger] services_from(ctx, r, order, pos, now);
            &&& after.phase != UpPhase::SavingCreating
            &&& !(action is CreateCluster)
            &&& !(action is InspectNetwork)
            &&& !(action is ExportKubeconfig)
        } by {
        lemma_services_phase(ctx, r, order, pos, now);
    }
}

/// A run comes to the point where a cluster is about to be created only with
/// the cluster recorded as being created, and what it does there is to have
/// the state written.
pub proof fn law_creation_is_recorded_first(
    ctx: ForgeContext,
    run: UpRunView,
    event: UpEventView,
    now: u64,
)
    ensures
        ({
            let (after, action) = up_step(ctx, run, event, now);
            after.phase == UpPhase::SavingCreating ==> {
                &&& action is Save
                &&& at_cluster(ctx, after)
                &&& current_cluster_phase(ctx, after) == Some(ClusterPhase::Creating)
            }
        }),
{
    lemma_services_phase_all(ctx, now);
    let i = run.clusters.len() as int;
    law_cluster_entry_follows_the_kind_name(
        run.state.clusters,
        ctx.config.spec.clusters@[i].name@,
        kind_name_in(*ctx.config, i),
        ClusterPhase::Creating,
        ctx.config.spec.clusters@[i].name@,
    );
}

/// A cluster is created only when the state in which it is recorded as being
/// created was written.
pub proof fn law_creation_waits_for_the_record(
    ctx: ForgeContext,
    run: UpRunView,
    event: UpEventView,
    now: u64,
)
    requires
        up_step(ctx, run, event, now).1 is CreateCluster,
    ensures
        run.phase == UpPhase::SavingCreating,
        event is Saved,
        up_step(ctx, run, event, now).0.state == run.state,
{
    lemma_services_phase_all(ctx, now);
}

/// Kubeconfigs are exported only in a real run with services, and only of
/// clusters that the state records as running.
pub proof fn law_kubeconfigs_are_exported_for_services(
    ctx: ForgeContext,
    run: UpRunView,
    event: UpEventView,
    now: u64,
)
    requires
        up_step(ctx, run, event, now).1 is ExportKubeconfig,
    ensures
        !ctx.dry_run,
        ctx.config.spec.services@.len() > 0,
        ({
            let (after, action) = up_step(ctx, run, event, now);
            &&& 0 <= after.next < after.state.clusters.len()
            &&& after.state.clusters[after.next].phase == ClusterPhase::Running
            &&& action == UpActionView::ExportKubeconfig {
                kind_name: after.state.clusters[after.next].kind_name,
                name: after.state.clusters[after.next].name,
            }
        }),
{
    lemma_services_phase_all(ctx, now);
    assert forall|clusters: Seq<ClusterView>, k: int|
        (#[trigger] next_running(clusters, k)) matches Some(i) ==> 0 <= i < clusters.len()
            && clusters[i].phase == ClusterPhase::Running by {
        lemma_next_running(clusters, k);
    }
}

proof fn lemma_next_running(clusters: Seq<ClusterView>, k: int)
    ensures
        next_running(clusters, k) matches Some(i) ==> 0 <= i < clusters.len() && clusters[i].phase
            == ClusterPhase::Running,
    decreases clusters.len() - k,
{
    if 0 <= k < clusters.len() {
        lemma_next_running(clusters, k + 1);
    }
}

/// True when the state records the configured cluster `k` as running under its
/// current KIND name.
pub open spec fn is_recorded_running(ctx: ForgeContext, st: StateView, k: int) -> bool {
    match cluster_position(st.clusters, ctx.config.spec.clusters@[k].name@, 0) {
        Some(i) => st.clusters[i].phase == ClusterPhase::Running && st.clusters[i].kind_name
            == kind_name_in(*ctx.config, k),
        None => false,
    }
}

/// True when the state records every configured cluster as running under its
/// current KIND name.
pub open spec fn all_recorded_running(ctx: ForgeContext, st: StateView) -> bool {
    forall|k: int|
        0 <= k < ctx.config.spec.clusters@.len() ==> #[trigger] is_recorded_running(ctx, st, k)
}

/// True when cluster `k` has the name of the cluster that a run works on.
pub open spec fn is_current(ctx: ForgeContext, run: UpRunView, k: int) -> bool {
    ctx.config.spec.clusters@[k].name@
        == ctx.config.spec.clusters@[run.clusters.len() as int].name@
}

/// True when a run has reached the clusters in their order: before the cluster
/// phase none is dealt with; in it, those that were are recorded as running,
/// but for one of the same name as the cluster that is being created; and
/// behind it all are.
pub open spec fn clusters_in_order(ctx: ForgeContext, run: UpRunView) -> bool {
    match run.phase {
        UpPhase::Start
        | UpPhase::Resolving
        | UpPhase::Locking
        | UpPhase::Loading
        | UpPhase::CreatingNetwork
        | UpPhase::InspectingNetwork
        | UpPhase::SavingNetwork => run.clusters.len() == 0,
        UpPhase::FindingCluster => {
            &&& at_cluster(ctx, run)
            &&& forall|k: int|
                0 <= k < run.clusters.len() ==> #[trigger] is_recorded_running(ctx, run.state, k)
        },
        UpPhase::SavingCreating | UpPhase::CreatingCluster => {
            &&& at_cluster(ctx, run)
            &&& forall|k: int|
                0 <= k < run.clusters.len() ==> #[trigger] is_recorded_running(ctx, run.state, k)
                    || is_current(ctx, run, k)
        },
        UpPhase::SavingFailure | UpPhase::Ended => true,
        _ => all_recorded_running(ctx, run.state),
    }
}

proof fn lemma_services_keep_clusters(
    ctx: ForgeContext,
    run: UpRunView,
    order: Seq<usize>,
    pos: int,
    now: u64,
)
    requires
        all_recorded_running(ctx, run.state),
    ensures
        clusters_in_order(ctx, services_from(ctx, run, order, pos, now).0),
    decreases order.len() - pos,
{
    if 0 <= pos < order.len() && order[pos] < ctx.config.spec.services@.len() {
        let svc = ctx.config.spec.services@[order[pos] as int];
        lemma_services_keep_clusters(ctx, run, order, pos + 1, now);
        lemma_services_keep_clusters(
            ctx,
            UpRunView { services: run.services.push(service_result(ctx, svc)), ..run },
            order,
            pos + 1,
            now,
        );
    }
}

proof fn lemma_exports_keep_clusters(ctx: ForgeContext, run: UpRunView, k: int, now: u64)
    requires
        all_recorded_running(ctx, run.state),
    ensures
        clusters_in_order(ctx, exports_from(ctx, run, k, now).0),
{
    if let Some(order) = run.order {
        lemma_services_keep_clusters(ctx, run, order, 0, now);
    }
}

proof fn lemma_clusters_go_on(ctx: ForgeContext, run: UpRunView, now: u64)
    requires
        !ctx.dry_run,
        forall|k: int|
            0 <= k < run.clusters.len() && k < ctx.config.spec.clusters@.len()
                ==> #[trigger] is_recorded_running(ctx, run.state, k),
    ensures
        clusters_in_order(ctx, clusters_next(ctx, run, now).0),
{
}

/// Writing the entry of cluster `c` records it, and every cluster of its name,
/// in the given phase, and leaves the clusters of other names as they were.
proof fn lemma_cluster_written(ctx: ForgeContext, st: StateView, c: int, phase: ClusterPhase, k: int)
    requires
        0 <= c < ctx.config.spec.clusters@.len(),
        0 <= k < ctx.config.spec.clusters@.len(),
    ensures
        ({
            let after = StateView {
                clusters: with_cluster(
                    st.clusters,
                    ctx.config.spec.clusters@[c].name@,
                    kind_name_in(*ctx.config, c),
                    phase,
                ),
                ..st
            };
            if ctx.config.spec.clusters@[k].name@ == ctx.config.spec.clusters@[c].name@ {
                phase == ClusterPhase::Running ==> is_recorded_running(ctx, after, k)
            } else {
                is_recorded_running(ctx, after, k) == is_recorded_running(ctx, st, k)
            }
        }),
{
    law_cluster_entry_follows_the_kind_name(
        st.clusters,
        ctx.config.spec.clusters@[c].name@,
        kind_name_in(*ctx.config, c),
        phase,
        ctx.config.spec.clusters@[k].name@,
    );
}

proof fn lemma_ready_cluster_is_recorded(
    ctx: ForgeContext,
    run: UpRunView,
    created: bool,
    now: u64,
)
    requires
        !ctx.dry_run,
        run.phase == UpPhase::FindingCluster || run.phase == UpPhase::CreatingCluster,
        clusters_in_order(ctx, run),
    ensures
        clusters_in_order(ctx, cluster_ready(ctx, run, created, now).0),
{
    let c = run.clusters.len() as int;
    let recorded = with_cluster_phase(ctx, run, ClusterPhase::Running);
    assert forall|k: int| 0 <= k <= c implies #[trigger] is_recorded_running(
        ctx,
        recorded.state,
        k,
    ) by {
        lemma_cluster_written(ctx, run.state, c, ClusterPhase::Running, k);
        if k < c {
            assert(is_recorded_running(ctx, run.state, k) || is_current(ctx, run, k));
        }
    }
    lemma_clusters_go_on(
        ctx,
        UpRunView {
            clusters: recorded.clusters.push(
                ClusterResultView {
                    name: ctx.config.spec.clusters@[c].name@,
                    kind_name: kind_name_in(*ctx.config, c),
                    created,
                    dry_run: false,
                },
            ),
            ..recorded
        },
        now,
    );
}

proof fn lemma_missing_cluster_is_noted(ctx: ForgeContext, run: UpRunView, now: u64)
    requires
        run.phase == UpPhase::FindingCluster,
        clusters_in_order(ctx, run),
    ensures
        clusters_in_order(ctx, cluster_found(ctx, run, false, now).0),
{
    let c = run.clusters.len() as int;
    let after = cluster_found(ctx, run, false, now).0;
    assert forall|k: int| 0 <= k < c implies #[trigger] is_recorded_running(ctx, after.state, k)
        || is_current(ctx, after, k) by {
        lemma_cluster_written(ctx, run.state, c, ClusterPhase::Creating, k);
        assert(is_recorded_running(ctx, run.state, k));
    }
}

/// Whatever happens in a real run, the clusters that were dealt with stay
/// recorded as running under their current KIND names, and the run goes on
/// behind the cluster phase only when all of them are.
pub proof fn law_clusters_are_recorded_in_order(
    ctx: ForgeContext,
    run: UpRunView,
    event: UpEventView,
    now: u64,
)
    requires
        !ctx.dry_run,
        clusters_in_order(ctx, run),
    ensures
        clusters_in_order(ctx, up_step(ctx, run, event, now).0),
{
    match event {
        UpEventView::ClusterFound(found) => {
            if run.phase == UpPhase::FindingCluster {
                lemma_ready_cluster_is_recorded(ctx, run, false, now);
                lemma_missing_cluster_is_noted(ctx, run, now);
            }
        },
        UpEventView::ClusterCreated => {
            if run.phase == UpPhase::CreatingCluster {
                lemma_ready_cluster_is_recorded(ctx, run, true, now);
            }
        },
        UpEventView::Saved => {
            if run.phase == UpPhase::SavingNetwork {
                lemma_clusters_go_on(ctx, run, now);
            } else if run.phase == UpPhase::SavingClusters {
                lemma_exports_keep_clusters(ctx, run, 0, now);
            } else {
                let after = up_step(ctx, run, event, now).0;
                assert forall|k: int| 0 <= k < ctx.config.spec.clusters@.len() && is_recorded_running(
                    ctx,
                    run.state,
                    k,
                ) implies #[trigger] is_recorded_running(ctx, after.state, k) by {
                    assert(after.state.clusters == run.state.clusters);
                }
            }
        },
        UpEventView::Exported => {
            if run.phase == UpPhase::Exporting {
                lemma_exports_keep_clusters(ctx, run, run.next + 1, now);
            }
        },
        UpEventView::Started => {
            if run.phase == UpPhase::Starting && at_service(ctx, run) {
                lemma_observed_keeps_clusters(ctx, run, ServiceHealth::Unknown, now);
                lemma_observed_keeps_clusters(ctx, run, ServiceHealth::Unhealthy, now);
                lemma_observed_keeps_clusters(ctx, run, ServiceHealth::Healthy, now);
            }
        },
        UpEventView::Probed(_) => {
            if run.phase == UpPhase::Probing && at_service(ctx, run) {
                lemma_observed_keeps_clusters(ctx, run, ServiceHealth::Unhealthy, now);
                lemma_observed_keeps_clusters(ctx, run, ServiceHealth::Healthy, now);
            }
        },
        UpEventView::Failed(_) => {},
        _ => {},
    }
}

proof fn lemma_observed_keeps_clusters(
    ctx: ForgeContext,
    run: UpRunView,
    health: ServiceHealth,
    now: u64,
)
    requires
        at_service(ctx, run),
        all_recorded_running(ctx, run.state),
    ensures
        clusters_in_order(ctx, service_observed(ctx, run, run.order->0, health, now).0),
{
    let order = run.order->0;
    let svc = ctx.config.spec.services@[order[run.next] as int];
    let container = container_name_of(ctx.config.metadata.name@, svc.name@);
    let recorded = UpRunView {
        state: StateView {
            services: with_service(run.state.services, svc, container, health, now),
            ..run.state
        },
        ..run
    };
    assert forall|k: int| 0 <= k < ctx.config.spec.clusters@.len() implies
        #[trigger] is_recorded_running(ctx, recorded.state, k) by {
        assert(is_recorded_running(ctx, run.state, k));
    }
    lemma_services_keep_clusters(
        ctx,
        UpRunView { services: recorded.services.push(service_result(ctx, svc)), ..recorded },
        order,
        run.next + 1,
        now,
    );
}

/// A real run that reports success has every configured cluster recorded as
/// running under its current KIND name.
pub proof fn law_success_means_every_cluster_runs(
    ctx: ForgeContext,
    run: UpRunView,
    event: UpEventView,
    now: u64,
)
    requires
        !ctx.dry_run,
        clusters_in_order(ctx, run),
        up_step(ctx, run, event, now).1 is Show,
    ensures
        all_recorded_running(ctx, run.state),
        up_step(ctx, run, event, now).0.state == run.state,
{
    law_success_is_shown_once_it_is_written(ctx, run, event, now);
}

// ---------------------------------------------------------------
// Network
// ---------------------------------------------------------------

/// The address range of the network is looked up only when the network is
/// recorded as active, so that it can be removed even if the lookup fails.
pub proof fn law_network_is_recorded_before_it_is_inspected(
    ctx: ForgeContext,
    run: UpRunView,
    event: UpEventView,
    now: u64,
)
    requires
        up_step(ctx, run, event, now).1 is InspectNetwork,
    ensures
        ({
            let (after, action) = up_step(ctx, run, event, now);
            let name = network_name_of(ctx.config.metadata.name@);
            &&& action == UpActionView::InspectNetwork { name }
            &&& after.state.network matches Some(net) && net.name == name && net.phase
                == NetworkPhase::Active
        }),
{
    lemma_services_phase_all(ctx, now);
}

// ---------------------------------------------------------------
// Failures
// ---------------------------------------------------------------

/// When an action of a checkpointed phase fails in a real run, everything that
/// was recorded so far is kept, the operation is recorded as failed, and the
/// state is written; the failure itself is reported afterwards.
pub proof fn law_failed_phases_are_recorded(
    ctx: ForgeContext,
    run: UpRunView,
    error: ErrorView,
    now: u64,
    later: u64,
)
    requires
        !ctx.dry_run,
        is_checkpointed(run.phase),
    ensures
        ({
            let (failed, action) = up_step(ctx, run, UpEventView::Failed(error), now);
            &&& action is Save
            &&& failed.state == (StateView {
                last_operation: Some(
                    OperationView { operation: "up"@, success: false, timestamp: now },
                ),
                ..run.state
            })
            &&& up_step(ctx, failed, UpEventView::Saved, later).1 == UpActionView::Fail(error)
            &&& forall|lost: ErrorView|
                (#[trigger] up_step(ctx, failed, UpEventView::Failed(lost), later)).1
                    == UpActionView::Fail(lost_checkpoint(error, lost))
        }),
{
}

/// The report of a failed phase that could not be recorded holds the texts of
/// both failures.
pub proof fn law_lost_checkpoints_are_reported(error: ErrorView, lost: ErrorView)
    ensures
        ({
            let text = error_text(lost_checkpoint(error, lost));
            let first = error_text(error);
            let second = error_text(lost);
            let start = "state error: "@.len() as int;
            &&& text.subrange(start, start + first.len()) == first
            &&& text.subrange(text.len() - second.len(), text.len() as int) == second
        }),
{
    let text = error_text(lost_checkpoint(error, lost));
    let first = error_text(error);
    let second = error_text(lost);
    let start = "state error: "@.len() as int;
    assert(text.subrange(start, start + first.len()) =~= first);
    assert(text.subrange(text.len() - second.len(), text.len() as int) =~= second);
}

/// A run comes to the point where its success is written only with the digest
/// of the configuration and the success recorded.
pub proof fn law_success_is_recorded(
    ctx: ForgeContext,
    run: UpRunView,
    event: UpEventView,
    now: u64,
)
    ensures
        ({
            let (after, action) = up_step(ctx, run, event, now);
            after.phase == UpPhase::SavingFinal ==> {
                &&& action is Save
                &&& after.state.last_operation == Some(
                    OperationView { operation: "up"@, success: true, timestamp: now },
                )
                &&& after.state.config_digest is Some
                &&& after.state.config_digest == digest_of_config(*ctx.config)
            }
        }),
{
    assert forall|r: UpRunView, order: Seq<usize>, pos: int|
        (#[trigger] services_from(ctx, r, order, pos, now)).0.phase != UpPhase::SavingFinal by {
        lemma_services_never_final(ctx, r, order, pos, now);
    }
}

proof fn lemma_services_never_final(
    ctx: ForgeContext,
    run: UpRunView,
    order: Seq<usize>,
    pos: int,
    now: u64,
)
    ensures
        services_from(ctx, run, order, pos, now).0.phase != UpPhase::SavingFinal,
    decreases order.len() - pos,
{
    if 0 <= pos < order.len() && order[pos] < ctx.config.spec.services@.len() {
        let svc = ctx.config.spec.services@[order[pos] as int];
        lemma_services_never_final(ctx, run, order, pos + 1, now);
        lemma_services_never_final(
            ctx,
            UpRunView { services: run.services.push(service_result(ctx, svc)), ..run },
            order,
            pos + 1,
            now,
        );
    }
}

proof fn lemma_services_show_nothing(
    ctx: ForgeContext,
    run: UpRunView,
    order: Seq<usize>,
    pos: int,
    now: u64,
)
    requires
        !ctx.dry_run,
    ensures
        !(services_from(ctx, run, order, pos, now).1 is Show),
    decreases order.len() - pos,
{
    if 0 <= pos < order.len() && order[pos] < ctx.config.spec.services@.len() {
        lemma_services_show_nothing(ctx, run, order, pos + 1, now);
    }
}

/// A real run reports success only when the state that records the success was
/// written.
pub proof fn law_success_is_shown_once_it_is_written(
    ctx: ForgeContext,
    run: UpRunView,
    event: UpEventView,
    now: u64,
)
    requires
        !ctx.dry_run,
        up_step(ctx, run, event, now).1 is Show,
    ensures
        run.phase == UpPhase::SavingFinal,
        event is Saved,
{
    assert forall|r: UpRunView, order: Seq<usize>, pos: int|
        !((#[trigger] services_from(ctx, r, order, pos, now)).1 is Show) by {
        lemma_services_show_nothing(ctx, r, order, pos, now);
    }
}

// ---------------------------------------------------------------
// Services
// ---------------------------------------------------------------

/// The results of the automatically started services among the first `n` of
/// an order.
pub open spec fn started_before(ctx: ForgeContext, order: Seq<usize>, n: int) -> Seq<
    ServiceResultView,
>
    decreases n,
{
    if n <= 0 || n > order.len() {
        Seq::empty()
    } else {
        let before = started_before(ctx, order, n - 1);
        let svc = ctx.config.spec.services@[order[n - 1] as int];
        if svc.auto_start {
            before.push(service_result(ctx, svc))
        } else {
            before
        }
    }
}

/// True when a run lists the services that are started automatically, in the
/// order of the run, and no others. Without configured services it lists none.
pub open spec fn all_started(ctx: ForgeContext, run: UpRunView) -> bool {
    if ctx.config.spec.services@.len() == 0 {
        run.services.len() == 0
    } else {
        run.order matches Some(order) && run.services == started_before(
            ctx,
            order,
            order.len() as int,
        )
    }
}

/// True when a run has reached the services in the order of its own: before
/// the service phase none is listed, while one is being worked on, those
/// before it are, and behind the phase all are.
pub open spec fn services_in_order(ctx: ForgeContext, run: UpRunView) -> bool {
    match run.phase {
        UpPhase::Starting | UpPhase::Probing => {
            &&& at_service(ctx, run)
            &&& ctx.config.spec.services@[run.order->0[run.next] as int].auto_start
            &&& run.services == started_before(ctx, run.order->0, run.next)
        },
        UpPhase::SavingServices | UpPhase::SavingFinal => all_started(ctx, run),
        UpPhase::SavingFailure | UpPhase::Ended => true,
        _ => run.services.len() == 0,
    }
}

proof fn lemma_services_in_order(
    ctx: ForgeContext,
    run: UpRunView,
    order: Seq<usize>,
    pos: int,
    now: u64,
)
    requires
        0 <= pos <= order.len(),
        ctx.config.spec.services@.len() > 0,
        run.order == Some(order),
        run.services == started_before(ctx, order, pos),
    ensures
        ({
            let (after, action) = services_from(ctx, run, order, pos, now);
            &&& services_in_order(ctx, after)
            &&& after.order == run.order
            &&& after.phase == UpPhase::Starting || after.phase == UpPhase::SavingServices
                || after.phase == UpPhase::SavingFinal || after.phase == UpPhase::SavingFailure
                || after.phase == UpPhase::Ended
            &&& action matches UpActionView::StartService { service, .. } ==> after.phase
                == UpPhase::Starting && service == order[after.next]
            &&& action is Show ==> all_started(ctx, after)
        }),
    decreases order.len() - pos,
{
    if pos < order.len() && order[pos] < ctx.config.spec.services@.len() {
        let svc = ctx.config.spec.services@[order[pos] as int];
        if !svc.auto_start {
            lemma_services_in_order(ctx, run, order, pos + 1, now);
        } else if ctx.dry_run {
            lemma_services_in_order(
                ctx,
                UpRunView { services: run.services.push(service_result(ctx, svc)), ..run },
                order,
                pos + 1,
                now,
            );
        }
    }
}

/// Services are dealt with in the order of the run, one after the other:
/// whatever happens, those before the one that is being worked on are exactly
/// those that are listed, and only services that are started automatically
/// are started. When the phase is over, and when success is reported, all of
/// them are listed.
#[verifier::rlimit(40)]
pub proof fn law_services_are_started_in_order(
    ctx: ForgeContext,
    run: UpRunView,
    event: UpEventView,
    now: u64,
)
    requires
        services_in_order(ctx, run),
    ensures
        ({
            let (after, action) = up_step(ctx, run, event, now);
            &&& services_in_order(ctx, after)
            &&& after.order == run.order
            &&& action matches UpActionView::StartService { service, .. } ==> {
                &&& after.phase == UpPhase::Starting
                &&& at_service(ctx, after)
                &&& service == after.order->0[after.next]
                &&& ctx.config.spec.services@[service].auto_start
                &&& after.services == started_before(ctx, after.order->0, after.next)
            }
            &&& action is Show ==> all_started(ctx, after)
        }),
{
    assert forall|r: UpRunView, order: Seq<usize>, pos: int|
        0 <= pos <= order.len() && ctx.config.spec.services@.len() > 0 && r.order == Some(order)
            && r.services == started_before(ctx, order, pos) implies {
        let (after, action) = #[trigger] services_from(ctx, r, order, pos, now);
        &&& services_in_order(ctx, after)
        &&& after.order == r.order
        &&& after.phase == UpPhase::Starting || after.phase == UpPhase::SavingServices
            || after.phase == UpPhase::SavingFinal || after.phase == UpPhase::SavingFailure
            || after.phase == UpPhase::Ended
        &&& action matches UpActionView::StartService { service, .. } ==> after.phase
            == UpPhase::Starting && service == order[after.next]
        &&& action is Show ==> all_started(ctx, after)
    } by {
        lemma_services_in_order(ctx, r, order, pos, now);
    }
    if let Some(order) = run.order {
        assert(started_before(ctx, order, 0) =~= Seq::empty());
    }
    if run.services.len() == 0 {
        assert(run.services =~= Seq::empty());
    }
}

proof fn lemma_started_before_contains(ctx: ForgeContext, order: Seq<usize>, n: int, i: int)
    requires
        0 <= i < n <= order.len(),
        ctx.config.spec.services@[order[i] as int].auto_start,
    ensures
        started_before(ctx, order, n).contains(
            service_result(ctx, ctx.config.spec.services@[order[i] as int]),
        ),
    decreases n,
{
    let wanted = service_result(ctx, ctx.config.spec.services@[order[i] as int]);
    let before = started_before(ctx, order, n - 1);
    let all = started_before(ctx, order, n);
    if i == n - 1 {
        assert(all[before.len() as int] == wanted);
    } else {
        lemma_started_before_contains(ctx, order, n - 1, i);
        let k = choose|k: int| 0 <= k < before.len() && before[k] == wanted;
        assert(all[k] == wanted);
    }
}

proof fn lemma_started_before_only(ctx: ForgeContext, order: Seq<usize>, n: int, k: int)
    requires
        0 <= n <= order.len(),
        0 <= k < started_before(ctx, order, n).len(),
    ensures
        exists|i: int|
            0 <= i < n && ctx.config.spec.services@[#[trigger] order[i] as int].auto_start
                && started_before(ctx, order, n)[k] == service_result(
                ctx,
                ctx.config.spec.services@[order[i] as int],
            ),
    decreases n,
{
    if n > 0 {
        let before = started_before(ctx, order, n - 1);
        let svc = ctx.config.spec.services@[order[n - 1] as int];
        if k < before.len() {
            lemma_started_before_only(ctx, order, n - 1, k);
            assert(started_before(ctx, order, n)[k] == before[k]);
        } else {
            assert(svc.auto_start);
        }
    }
}

/// True when a result is that of a configured service, and this service is
/// started automatically.
pub open spec fn is_result_of(ctx: ForgeContext, i: int, result: ServiceResultView) -> bool {
    let services = ctx.config.spec.services@;
    0 <= i < services.len() && services[i].auto_start && result == service_result(ctx, services[i])
}

/// True when a result is that of some service that is started automatically.
pub open spec fn is_started_result(ctx: ForgeContext, result: ServiceResultView) -> bool {
    exists|i: int| is_result_of(ctx, i, result)
}

/// A run with a full start order reports success with exactly the services that
/// are started automatically: each of them is listed, and nothing else is.
pub proof fn law_success_lists_the_services(
    ctx: ForgeContext,
    run: UpRunView,
    event: UpEventView,
    now: u64,
)
    requires
        services_in_order(ctx, run),
        run.order matches Some(order) && is_start_order(ctx.config.spec.services@, order),
        up_step(ctx, run, event, now).1 is Show,
    ensures
        ({
            let (after, action) = up_step(ctx, run, event, now);
            let services = ctx.config.spec.services@;
            &&& forall|i: int|
                0 <= i < services.len() && (#[trigger] services[i]).auto_start
                    ==> after.services.contains(service_result(ctx, services[i]))
            &&& forall|k: int|
                0 <= k < after.services.len() ==> is_started_result(
                    ctx,
                    #[trigger] after.services[k],
                )
        }),
{
    let after = up_step(ctx, run, event, now).0;
    let services = ctx.config.spec.services@;
    let order = run.order->0;
    let n = order.len() as int;
    law_services_are_started_in_order(ctx, run, event, now);
    assert forall|i: int|
        0 <= i < services.len() && (
        #[trigger] services[i]).auto_start implies after.services.contains(
        service_result(ctx, services[i]),
    ) by {
        assert(lists_service(order, i));
        let j = choose|j: int| 0 <= j < order.len() && #[trigger] order[j] == i;
        lemma_started_before_contains(ctx, order, n, j);
    }
    assert forall|k: int| 0 <= k < after.services.len() implies is_started_result(
        ctx,
        #[trigger] after.services[k],
    ) by {
        lemma_started_before_only(ctx, order, n, k);
        let j = choose|j: int|
            0 <= j < n && services[#[trigger] order[j] as int].auto_start && started_before(
                ctx,
                order,
                n,
            )[k] == service_result(ctx, services[order[j] as int]);
        assert(is_result_of(ctx, order[j] as int, after.services[k]));
    }
}

/// In a run on an accepted configuration a service is started only when every
/// service that it depends on was started before it.
pub proof fn law_dependencies_are_started_first(
    ctx: ForgeContext,
    run: UpRunView,
    event: UpEventView,
    now: u64,
    service: int,
    dependency: int,
)
    requires
        accepted(*ctx.config),
        services_in_order(ctx, run),
        run.order matches Some(order) && is_start_order(ctx.config.spec.services@, order),
        up_step(ctx, run, event, now).1 matches UpActionView::StartService { service: s, .. } && s
            == service,
        depends(ctx.config.spec.services@, service, dependency),
    ensures
        up_step(ctx, run, event, now).0.services.contains(
            service_result(ctx, ctx.config.spec.services@[dependency]),
        ),
{
    let services = ctx.config.spec.services@;
    let (after, action) = up_step(ctx, run, event, now);
    law_services_are_started_in_order(ctx, run, event, now);
    let order = run.order->0;
    law_auto_start_is_closed(*ctx.config, service, dependency);
    lemma_depends_in_range(services, service, dependency);
    assert(lists_service(order, dependency));
    let i = choose|i: int| 0 <= i < order.len() && #[trigger] order[i] == dependency;
    let j = after.next;
    assert(depends(services, order[j] as int, order[i] as int));
    lemma_started_before_contains(ctx, order, j, i);
}

proof fn lemma_depends_in_range(
    services: Seq<crate::config::ServiceSpec>,
    i: int,
    j: int,
)
    requires
        depends(services, i, j),
    ensures
        0 <= j < services.len(),
{
    let m = choose|m: int|
        0 <= m < services[i].depends_on@.len() && crate::config::validate::deps::provider(
            services,
            (#[trigger] services[i].depends_on@[m])@,
        ) == Some(j);
    lemma_provider(services, services[i].depends_on@[m]@);
}

proof fn lemma_service_position(services: Seq<ServiceView>, name: Seq<char>, i: int)
    requires
        0 <= i <= services.len(),
    ensures
        match service_position(services, name, i) {
            Some(k) => i <= k < services.len() && services[k].name == name && forall|m: int|
                i <= m < k ==> (#[trigger] services[m]).name != name,
            None => forall|m: int|
                i <= m < services.len() ==> (#[trigger] services[m]).name != name,
        },
    decreases services.len() - i,
{
    if i < services.len() {
        lemma_service_position(services, name, i + 1);
    }
}

/// A service whose health check never passed is recorded as unhealthy, and
/// fails a real run: the state is written and then the failure reported.
pub proof fn law_unhealthy_services_fail_the_run(
    ctx: ForgeContext,
    run: UpRunView,
    now: u64,
)
    requires
        !ctx.dry_run,
        run.phase == UpPhase::Probing,
        at_service(ctx, run),
    ensures
        ({
            let (after, action) = up_step(ctx, run, UpEventView::Probed(false), now);
            let svc = ctx.config.spec.services@[run.order->0[run.next] as int];
            let at = service_position(after.state.services, svc.name@, 0);
            &&& action is Save
            &&& after.phase == UpPhase::SavingFailure
            &&& after.failure is Some && after.failure->0 is Runtime
            &&& at is Some && after.state.services[at->0].phase == ServicePhase::Unhealthy
            &&& forall|error: ErrorView|
                #[trigger] up_step(ctx, run, UpEventView::Failed(error), now) == (after, action)
        }),
{
    let svc = ctx.config.spec.services@[run.order->0[run.next] as int];
    let (after, action) = up_step(ctx, run, UpEventView::Probed(false), now);
    let before = run.state.services;
    let services = after.state.services;
    lemma_service_position(before, svc.name@, 0);
    lemma_service_position(services, svc.name@, 0);
    match service_position(before, svc.name@, 0) {
        Some(k) => {
            assert(services[k].name == svc.name@);
            let m = service_position(services, svc.name@, 0)->0;
            if m < k {
                assert(services[m] == before[m]);
            }
        },
        None => {
            assert(services[before.len() as int].name == svc.name@);
            let m = service_position(services, svc.name@, 0)->0;
            if m < before.len() {
                assert(services[m] == before[m]);
            }
        },
    }
}

/// A run of which nothing was done has reached neither clusters nor services
/// out of order.
pub proof fn law_new_runs_are_in_order(ctx: ForgeContext, order: Option<Seq<usize>>)
    ensures
        clusters_in_order(ctx, new_up_run(order)),
        services_in_order(ctx, new_up_run(order)),
{
}

// ---------------------------------------------------------------
// Stacks and captures
// ---------------------------------------------------------------

/// True when two states record the same stacks and captures.
pub open spec fn same_stacks(a: StateView, b: StateView) -> bool {
    a.stacks == b.stacks && a.captures == b.captures
}

proof fn lemma_services_keep_stacks(
    ctx: ForgeContext,
    run: UpRunView,
    order: Seq<usize>,
    pos: int,
    now: u64,
)
    ensures
        same_stacks(services_from(ctx, run, order, pos, now).0.state, run.state),
    decreases order.len() - pos,
{
    if 0 <= pos < order.len() && order[pos] < ctx.config.spec.services@.len() {
        let svc = ctx.config.spec.services@[order[pos] as int];
        lemma_services_keep_stacks(ctx, run, order, pos + 1, now);
        lemma_services_keep_stacks(
            ctx,
            UpRunView { services: run.services.push(service_result(ctx, svc)), ..run },
            order,
            pos + 1,
            now,
        );
    }
}

/// Stacks are not applied by the command: whatever happens, the stacks and the
/// captures of the state that was read are kept as they are.
pub proof fn law_stacks_and_captures_are_kept(
    ctx: ForgeContext,
    run: UpRunView,
    event: UpEventView,
    now: u64,
)
    ensures
        same_stacks(
            up_step(ctx, run, event, now).0.state,
            match (run.phase, event) {
                (UpPhase::Loading, UpEventView::Loaded(st)) => st,
                _ => run.state,
            },
        ),
{
    assert forall|r: UpRunView, order: Seq<usize>, pos: int|
        same_stacks((#[trigger] services_from(ctx, r, order, pos, now)).0.state, r.state) by {
        lemma_services_keep_stacks(ctx, r, order, pos, now);
    }
}

// ---------------------------------------------------------------
// Progress
// ---------------------------------------------------------------

/// How far a run is from its end: the part of the command, the clusters,
/// kubeconfigs or services that are left in it, and the actions that are left
/// for the current one.
pub open spec fn distance(ctx: ForgeContext, run: UpRunView) -> (int, int, int) {
    let clusters = ctx.config.spec.clusters@.len() - run.clusters.len();
    let services = match run.order {
        Some(order) => order.len() - run.next,
        None => 0,
    };
    match run.phase {
        UpPhase::Start => (12, 0, 0),
        UpPhase::Resolving => (11, 0, 0),
        UpPhase::Locking => (10, 0, 0),
        UpPhase::Loading => (9, 0, 0),
        UpPhase::CreatingNetwork => (8, 0, 0),
        UpPhase::InspectingNetwork => (7, 0, 0),
        UpPhase::SavingNetwork => (6, 0, 0),
        UpPhase::FindingCluster => (5, clusters, 2),
        UpPhase::SavingCreating => (5, clusters, 1),
        UpPhase::CreatingCluster => (5, clusters, 0),
        UpPhase::SavingClusters => (4, 0, 0),
        UpPhase::Exporting => (3, run.state.clusters.len() - run.next, 0),
        UpPhase::Starting => (2, services, 1),
        UpPhase::Probing => (2, services, 0),
        UpPhase::SavingServices => (1, 1, 0),
        UpPhase::SavingFinal => (1, 0, 0),
        UpPhase::SavingFailure => (1, 0, 0),
        UpPhase::Ended => (0, 0, 0),
    }
}

/// True when the first distance is the smaller one.
pub open spec fn is_closer(a: (int, int, int), b: (int, int, int)) -> bool {
    a.0 < b.0 || (a.0 == b.0 && (a.1 < b.1 || (a.1 == b.1 && a.2 < b.2)))
}

proof fn lemma_services_distance(
    ctx: ForgeContext,
    run: UpRunView,
    order: Seq<usize>,
    pos: int,
    now: u64,
)
    requires
        0 <= pos,
        run.order == Some(order),
    ensures
        ({
            let after = services_from(ctx, run, order, pos, now).0;
            &&& after.order == run.order
            &&& run.next >= 0 ==> after.next >= 0
            &&& after.phase == UpPhase::SavingServices || after.phase == UpPhase::SavingFinal
                || after.phase == UpPhase::SavingFailure || after.phase == UpPhase::Ended || (
            after.phase == UpPhase::Starting && pos <= after.next < order.len())
        }),
    decreases order.len() - pos,
{
    if pos < order.len() && order[pos] < ctx.config.spec.services@.len() {
        let svc = ctx.config.spec.services@[order[pos] as int];
        lemma_services_distance(ctx, run, order, pos + 1, now);
        lemma_services_distance(
            ctx,
            UpRunView { services: run.services.push(service_result(ctx, svc)), ..run },
            order,
            pos + 1,
            now,
        );
    }
}

proof fn lemma_next_running_from(clusters: Seq<ClusterView>, k: int)
    ensures
        next_running(clusters, k) matches Some(i) ==> k <= i < clusters.len(),
    decreases clusters.len() - k,
{
    if 0 <= k < clusters.len() {
        lemma_next_running_from(clusters, k + 1);
    }
}

/// True when a run has come to a point from `major` on, well within bounds.
spec fn is_within(ctx: ForgeContext, before: UpRunView, after: UpRunView, major: int) -> bool {
    &&& before.next >= 0 ==> after.next >= 0
    &&& distance(ctx, after).0 <= major
    &&& distance(ctx, after).1 >= 0
}

proof fn lemma_services_begin_distance(ctx: ForgeContext, run: UpRunView, now: u64)
    ensures
        is_within(ctx, run, services_begin(ctx, run, now).0, 2),
{
    if let Some(order) = run.order {
        lemma_services_distance(ctx, run, order, 0, now);
    }
}

proof fn lemma_exports_distance(ctx: ForgeContext, run: UpRunView, k: int, now: u64)
    requires
        k >= 0,
    ensures
        ({
            let after = exports_from(ctx, run, k, now).0;
            &&& is_within(ctx, run, after, 3)
            &&& after.phase == UpPhase::Exporting ==> after.next >= k && after.state.clusters
                == run.state.clusters
        }),
{
    lemma_services_begin_distance(ctx, run, now);
    lemma_next_running_from(run.state.clusters, k);
    assert(services_begin(ctx, run, now).0.phase != UpPhase::Exporting);
}

proof fn lemma_clusters_distance(ctx: ForgeContext, run: UpRunView, now: u64)
    ensures
        ({
            let after = clusters_next(ctx, run, now).0;
            &&& is_within(ctx, run, after, 5)
            &&& distance(ctx, after).0 == 5 ==> after.clusters == run.clusters && after.phase
                == UpPhase::FindingCluster
        }),
{
    lemma_exports_distance(
        ctx,
        UpRunView { clusters: dry_clusters(*ctx.config), ..run },
        0,
        now,
    );
}

proof fn lemma_chain_distances(ctx: ForgeContext, now: u64)
    ensures
        forall|r: UpRunView, order: Seq<usize>, pos: int|
            0 <= pos && r.order == Some(order) ==> {
                let after = (#[trigger] services_from(ctx, r, order, pos, now)).0;
                &&& after.order == r.order
                &&& is_within(ctx, r, after, 2)
                &&& after.phase == UpPhase::Starting ==> pos <= after.next
                &&& after.phase != UpPhase::Probing
            },
        forall|r: UpRunView, k: int|
            k >= 0 ==> {
                let after = (#[trigger] exports_from(ctx, r, k, now)).0;
                &&& is_within(ctx, r, after, 3)
                &&& after.phase == UpPhase::Exporting ==> after.next >= k && after.state.clusters
                    == r.state.clusters
            },
        forall|r: UpRunView|
            {
                let after = (#[trigger] clusters_next(ctx, r, now)).0;
                &&& is_within(ctx, r, after, 5)
                &&& distance(ctx, after).0 == 5 ==> after.clusters == r.clusters && after.phase
                    == UpPhase::FindingCluster
            },
{
    assert forall|r: UpRunView, order: Seq<usize>, pos: int|
        0 <= pos && r.order == Some(order) implies {
        let after = (#[trigger] services_from(ctx, r, order, pos, now)).0;
        &&& after.order == r.order
        &&& is_within(ctx, r, after, 2)
        &&& after.phase == UpPhase::Starting ==> pos <= after.next
        &&& after.phase != UpPhase::Probing
    } by {
        lemma_services_distance(ctx, r, order, pos, now);
    }
    assert forall|r: UpRunView, k: int| k >= 0 implies {
        let after = (#[trigger] exports_from(ctx, r, k, now)).0;
        &&& is_within(ctx, r, after, 3)
        &&& after.phase == UpPhase::Exporting ==> after.next >= k && after.state.clusters
            == r.state.clusters
    } by {
        lemma_exports_distance(ctx, r, k, now);
    }
    assert forall|r: UpRunView|
        {
            let after = (#[trigger] clusters_next(ctx, r, now)).0;
            &&& is_within(ctx, r, after, 5)
            &&& distance(ctx, after).0 == 5 ==> after.clusters == r.clusters && after.phase
                == UpPhase::FindingCluster
        } by {
        lemma_clusters_distance(ctx, r, now);
    }
}

/// True when a run has come closer to its end, by a distance that has not
/// fallen below zero.
pub open spec fn comes_closer(ctx: ForgeContext, before: UpRunView, after: UpRunView) -> bool {
    &&& after.next >= 0
    &&& is_closer(distance(ctx, after), distance(ctx, before))
    &&& distance(ctx, after).1 >= 0
}

proof fn lemma_closer_on_failure(ctx: ForgeContext, run: UpRunView, error: ErrorView, now: u64)
    requires
        run.phase != UpPhase::Ended,
        run.next >= 0,
    ensures
        comes_closer(ctx, run, up_failed(ctx, run, error, now).0),
{
}

proof fn lemma_closer_on_save(ctx: ForgeContext, run: UpRunView, now: u64)
    requires
        run.phase != UpPhase::Ended,
        run.next >= 0,
    ensures
        comes_closer(ctx, run, up_saved(ctx, run, now).0),
{
    lemma_clusters_distance(ctx, run, now);
    lemma_exports_distance(ctx, run, 0, now);
}

proof fn lemma_closer_when_observed(
    ctx: ForgeContext,
    run: UpRunView,
    health: ServiceHealth,
    now: u64,
)
    requires
        run.phase == UpPhase::Starting || run.phase == UpPhase::Probing,
        at_service(ctx, run),
    ensures
        comes_closer(ctx, run, service_observed(ctx, run, run.order->0, health, now).0),
{
    lemma_chain_distances(ctx, now);
}

proof fn lemma_closer_on_cluster(ctx: ForgeContext, run: UpRunView, created: bool, now: u64)
    requires
        run.phase == UpPhase::FindingCluster || run.phase == UpPhase::CreatingCluster,
        at_cluster(ctx, run),
        run.next >= 0,
    ensures
        comes_closer(ctx, run, cluster_ready(ctx, run, created, now).0),
{
    lemma_chain_distances(ctx, now);
}

proof fn lemma_closer_on_opening(ctx: ForgeContext, run: UpRunView, event: UpEventView, now: u64)
    requires
        run.phase != UpPhase::Ended,
        run.next >= 0,
    ensures
        comes_closer(ctx, run, up_opening(ctx, run, event, now).0),
        comes_closer(ctx, run, up_network(ctx, run, event, now).0),
{
    lemma_chain_distances(ctx, now);
}

/// Whatever happens, a run that has not ended comes closer to its end, by a
/// distance that never falls below zero: no event takes it back, and after
/// finitely many events it has ended.
pub proof fn law_every_event_brings_the_end_closer(
    ctx: ForgeContext,
    run: UpRunView,
    event: UpEventView,
    now: u64,
)
    requires
        run.phase != UpPhase::Ended,
        run.next >= 0,
    ensures
        comes_closer(ctx, run, up_step(ctx, run, event, now).0),
{
    match event {
        UpEventView::Failed(error) => {
            lemma_closer_on_failure(ctx, run, error, now);
        },
        UpEventView::Saved => {
            lemma_closer_on_save(ctx, run, now);
        },
        UpEventView::Started => {
            if run.phase == UpPhase::Starting && at_service(ctx, run) {
                lemma_closer_when_observed(ctx, run, ServiceHealth::Unknown, now);
                lemma_closer_when_observed(ctx, run, ServiceHealth::Unhealthy, now);
                lemma_closer_when_observed(ctx, run, ServiceHealth::Healthy, now);
            }
        },
        UpEventView::Probed(_) => {
            if run.phase == UpPhase::Probing && at_service(ctx, run) {
                lemma_closer_when_observed(ctx, run, ServiceHealth::Healthy, now);
                lemma_closer_when_observed(ctx, run, ServiceHealth::Unhealthy, now);
            }
        },
        UpEventView::ClusterFound(_) => {
            if run.phase == UpPhase::FindingCluster && at_cluster(ctx, run) {
                lemma_closer_on_cluster(ctx, run, false, now);
            }
        },
        UpEventView::ClusterCreated => {
            if run.phase == UpPhase::CreatingCluster && at_cluster(ctx, run) {
                lemma_closer_on_cluster(ctx, run, true, now);
            }
        },
        UpEventView::Exported => {
            lemma_exports_distance(ctx, run, run.next + 1, now);
        },
        _ => {
            lemma_closer_on_opening(ctx, run, event, now);
        },
    }
}

} // verus!
