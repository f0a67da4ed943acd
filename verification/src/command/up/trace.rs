//! What holds of a whole run of `up`, from its first event on.

use vstd::prelude::*;
use crate::command::up::{
    exports_from, new_up_run, next_running, service_result, services_from, up_step, UpActionView,
    UpEventView, UpPhase, UpRunView,
};
use crate::context::ForgeContext;
use crate::state::{ClusterPhase, ClusterView};

verus! {

/// The run after its first `n` events, each with the time at which it came.
pub open spec fn run_after(
    ctx: ForgeContext,
    order: Option<Seq<usize>>,
    events: Seq<(UpEventView, u64)>,
    n: int,
) -> UpRunView
    decreases n,
{
    if n <= 0 {
        new_up_run(order)
    } else {
        up_step(ctx, run_after(ctx, order, events, n - 1), events[n - 1].0, events[n - 1].1).0
    }
}

/// What the run does at event `n`.
pub open spec fn action_at(
    ctx: ForgeContext,
    order: Option<Seq<usize>>,
    events: Seq<(UpEventView, u64)>,
    n: int,
) -> UpActionView {
    up_step(ctx, run_after(ctx, order, events, n), events[n].0, events[n].1).1
}

// ---------------------------------------------------------------
// Kubeconfigs
// ---------------------------------------------------------------

/// True when the kubeconfig of a cluster was asked for at event `m`, and the
/// next event told that it was written.
pub open spec fn exported_at(
    ctx: ForgeContext,
    order: Option<Seq<usize>>,
    events: Seq<(UpEventView, u64)>,
    cluster: ClusterView,
    m: int,
) -> bool {
    &&& action_at(ctx, order, events, m) == UpActionView::ExportKubeconfig {
        kind_name: cluster.kind_name,
        name: cluster.name,
    }
    &&& events[m + 1].0 is Exported
}

/// True when the kubeconfig of a cluster was written in the course of the first
/// `n` events.
pub open spec fn was_exported(
    ctx: ForgeContext,
    order: Option<Seq<usize>>,
    events: Seq<(UpEventView, u64)>,
    cluster: ClusterView,
    n: int,
) -> bool {
    exists|m: int| 0 <= m && m + 1 < n && #[trigger] exported_at(ctx, order, events, cluster, m)
}

proof fn lemma_next_running(clusters: Seq<ClusterView>, k: int)
    requires
        0 <= k,
    ensures
        match next_running(clusters, k) {
            Some(i) => {
                &&& k <= i < clusters.len()
                &&& clusters[i].phase == ClusterPhase::Running
                &&& forall|j: int| k <= j < i ==> (#[trigger] clusters[j]).phase
                    != ClusterPhase::Running
            },
            None => forall|j: int|
                k <= j < clusters.len() ==> (#[trigger] clusters[j]).phase
                    != ClusterPhase::Running,
        },
    decreases clusters.len() - k,
{
    if k < clusters.len() {
        lemma_next_running(clusters, k + 1);
    }
}

/// When a kubeconfig was written, the next one that is asked for is that of the
/// first running cluster behind it, as long as there is one. The state is kept
/// as it is.
pub proof fn law_exports_go_on(ctx: ForgeContext, run: UpRunView, now: u64, q: int)
    requires
        !ctx.dry_run,
        ctx.config.spec.services@.len() > 0,
        run.phase == UpPhase::Exporting,
        0 <= run.next < q < run.state.clusters.len(),
        run.state.clusters[q].phase == ClusterPhase::Running,
    ensures
        ({
            let (after, action) = up_step(ctx, run, UpEventView::Exported, now);
            &&& run.next < after.next <= q
            &&& run.state.clusters[after.next].phase == ClusterPhase::Running
            &&& forall|j: int|
                run.next < j < after.next ==> (#[trigger] run.state.clusters[j]).phase
                    != ClusterPhase::Running
            &&& action == UpActionView::ExportKubeconfig {
                kind_name: run.state.clusters[after.next].kind_name,
                name: run.state.clusters[after.next].name,
            }
            &&& after.phase == UpPhase::Exporting
            &&& after.state == run.state
        }),
{
    lemma_next_running(run.state.clusters, run.next + 1);
}

/// When the state was written behind the cluster phase of a real run with
/// services, the first kubeconfig that is asked for is that of the first running
/// cluster.
pub proof fn law_exports_begin(ctx: ForgeContext, run: UpRunView, now: u64, q: int)
    requires
        !ctx.dry_run,
        ctx.config.spec.services@.len() > 0,
        run.phase == UpPhase::SavingClusters,
        0 <= q < run.state.clusters.len(),
        run.state.clusters[q].phase == ClusterPhase::Running,
    ensures
        ({
            let (after, action) = up_step(ctx, run, UpEventView::Saved, now);
            &&& 0 <= after.next <= q
            &&& run.state.clusters[after.next].phase == ClusterPhase::Running
            &&& forall|j: int|
                0 <= j < after.next ==> (#[trigger] run.state.clusters[j]).phase
                    != ClusterPhase::Running
            &&& action == UpActionView::ExportKubeconfig {
                kind_name: run.state.clusters[after.next].kind_name,
                name: run.state.clusters[after.next].name,
            }
            &&& after.phase == UpPhase::Exporting
            &&& after.state == run.state
        }),
{
    lemma_next_running(run.state.clusters, 0);
}

/// What a real run has exported at the point it has come to.
spec fn exports_in_order(
    ctx: ForgeContext,
    order: Option<Seq<usize>>,
    events: Seq<(UpEventView, u64)>,
    n: int,
) -> bool {
    let run = run_after(ctx, order, events, n);
    let clusters = run.state.clusters;
    match run.phase {
        UpPhase::Exporting => {
            &&& 0 <= run.next < clusters.len()
            &&& 0 < n
            &&& action_at(ctx, order, events, n - 1) == UpActionView::ExportKubeconfig {
                kind_name: clusters[run.next].kind_name,
                name: clusters[run.next].name,
            }
            &&& forall|q: int|
                0 <= q < run.next && (#[trigger] clusters[q]).phase == ClusterPhase::Running
                    ==> was_exported(ctx, order, events, clusters[q], n)
        },
        UpPhase::Starting
        | UpPhase::Probing
        | UpPhase::SavingServices
        | UpPhase::SavingFinal => ctx.config.spec.services@.len() > 0 ==> forall|q: int|
            0 <= q < clusters.len() && (#[trigger] clusters[q]).phase == ClusterPhase::Running
                ==> was_exported(ctx, order, events, clusters[q], n),
        _ => true,
    }
}

proof fn lemma_services_behind_exports(
    ctx: ForgeContext,
    run: UpRunView,
    order: Seq<usize>,
    pos: int,
    now: u64,
)
    requires
        !ctx.dry_run,
    ensures
        ({
            let (after, action) = services_from(ctx, run, order, pos, now);
            &&& after.phase == UpPhase::Starting || after.phase == UpPhase::SavingServices
                || after.phase == UpPhase::SavingFailure
            &&& after.state.clusters == run.state.clusters
            &&& !(action is Show)
            &&& action is StartService ==> after.phase == UpPhase::Starting
        }),
    decreases order.len() - pos,
{
    if 0 <= pos < order.len() && order[pos] < ctx.config.spec.services@.len() {
        let svc = ctx.config.spec.services@[order[pos] as int];
        lemma_services_behind_exports(ctx, run, order, pos + 1, now);
        lemma_services_behind_exports(
            ctx,
            UpRunView { services: run.services.push(service_result(ctx, svc)), ..run },
            order,
            pos + 1,
            now,
        );
    }
}

proof fn lemma_was_exported_later(
    ctx: ForgeContext,
    order: Option<Seq<usize>>,
    events: Seq<(UpEventView, u64)>,
    cluster: ClusterView,
    n: int,
)
    requires
        was_exported(ctx, order, events, cluster, n),
    ensures
        was_exported(ctx, order, events, cluster, n + 1),
{
    let m = choose|m: int|
        0 <= m && m + 1 < n && #[trigger] exported_at(ctx, order, events, cluster, m);
    assert(exported_at(ctx, order, events, cluster, m));
}

/// What exporting from position `k` on leads to, if the running clusters before
/// it were exported.
proof fn lemma_exports_from(
    ctx: ForgeContext,
    order: Option<Seq<usize>>,
    events: Seq<(UpEventView, u64)>,
    n: int,
    k: int,
)
    requires
        !ctx.dry_run,
        0 <= n < events.len(),
        0 <= k,
        ({
            let run = run_after(ctx, order, events, n);
            &&& up_step(ctx, run, events[n].0, events[n].1) == exports_from(
                ctx,
                run,
                k,
                events[n].1,
            )
            &&& forall|q: int|
                0 <= q < k && q < run.state.clusters.len() && (
                #[trigger] run.state.clusters[q]).phase == ClusterPhase::Running ==> was_exported(
                    ctx,
                    order,
                    events,
                    run.state.clusters[q],
                    n + 1,
                )
        }),
    ensures
        exports_in_order(ctx, order, events, n + 1),
{
    let run = run_after(ctx, order, events, n);
    let now = events[n].1;
    let after = run_after(ctx, order, events, n + 1);
    assert(after == exports_from(ctx, run, k, now).0);
    lemma_next_running(run.state.clusters, k);
    if let Some(o) = run.order {
        lemma_services_behind_exports(ctx, run, o, 0, now);
    }
    assert(after.state.clusters == run.state.clusters);
}

proof fn lemma_exports_in_order(
    ctx: ForgeContext,
    order: Option<Seq<usize>>,
    events: Seq<(UpEventView, u64)>,
    n: int,
)
    requires
        !ctx.dry_run,
        0 <= n <= events.len(),
    ensures
        exports_in_order(ctx, order, events, n),
    decreases n,
{
    if n > 0 {
        let k = n - 1;
        lemma_exports_in_order(ctx, order, events, k);
        let run = run_after(ctx, order, events, k);
        let (event, now) = events[k];
        let after = run_after(ctx, order, events, n);
        let clusters = run.state.clusters;
        assert(after == up_step(ctx, run, event, now).0);
        assert forall|r: UpRunView, o: Seq<usize>, pos: int|
            {
                let (end, action) = #[trigger] services_from(ctx, r, o, pos, now);
                &&& end.phase == UpPhase::Starting || end.phase == UpPhase::SavingServices
                    || end.phase == UpPhase::SavingFailure
                &&& end.state.clusters == r.state.clusters
            } by {
            lemma_services_behind_exports(ctx, r, o, pos, now);
        }
        if event is Saved && run.phase == UpPhase::SavingClusters {
            lemma_exports_from(ctx, order, events, k, 0);
        } else if event is Exported && run.phase == UpPhase::Exporting {
            assert(exported_at(ctx, order, events, clusters[run.next], k - 1));
            assert forall|q: int|
                0 <= q < run.next + 1 && q < clusters.len() && (#[trigger] clusters[q]).phase
                    == ClusterPhase::Running implies was_exported(
                ctx,
                order,
                events,
                clusters[q],
                n,
            ) by {
                if q < run.next {
                    lemma_was_exported_later(ctx, order, events, clusters[q], k);
                }
            }
            lemma_exports_from(ctx, order, events, k, run.next + 1);
        } else if run.phase == UpPhase::Starting || run.phase == UpPhase::Probing || run.phase
            == UpPhase::SavingServices || run.phase == UpPhase::SavingFinal {
            assert(after.phase == UpPhase::Starting || after.phase == UpPhase::Probing
                || after.phase == UpPhase::SavingServices || after.phase == UpPhase::SavingFinal
                || after.phase == UpPhase::SavingFailure || after.phase == UpPhase::Ended);
            assert(after.state.clusters == clusters);
            assert forall|q: int|
                ctx.config.spec.services@.len() > 0 && 0 <= q < clusters.len() && (
                #[trigger] clusters[q]).phase == ClusterPhase::Running && exports_in_order(
                    ctx,
                    order,
                    events,
                    k,
                ) implies was_exported(ctx, order, events, clusters[q], n) by {
                lemma_was_exported_later(ctx, order, events, clusters[q], k);
            }
        } else {
            assert(after.phase != UpPhase::Exporting && after.phase != UpPhase::Starting
                && after.phase != UpPhase::Probing && after.phase != UpPhase::SavingServices
                && after.phase != UpPhase::SavingFinal);
        }
    }
}

/// In a real run with services, a service is started, and success is shown, only
/// after a kubeconfig was written for every cluster that the state records as
/// running.
pub proof fn law_services_wait_for_every_kubeconfig(
    ctx: ForgeContext,
    order: Option<Seq<usize>>,
    events: Seq<(UpEventView, u64)>,
    n: int,
    q: int,
)
    requires
        !ctx.dry_run,
        ctx.config.spec.services@.len() > 0,
        0 <= n < events.len(),
        action_at(ctx, order, events, n) is StartService || action_at(ctx, order, events, n)
            is Show,
        0 <= q < run_after(ctx, order, events, n + 1).state.clusters.len(),
        run_after(ctx, order, events, n + 1).state.clusters[q].phase == ClusterPhase::Running,
    ensures
        was_exported(
            ctx,
            order,
            events,
            run_after(ctx, order, events, n + 1).state.clusters[q],
            n + 1,
        ),
{
    let run = run_after(ctx, order, events, n);
    let (event, now) = events[n];
    let after = run_after(ctx, order, events, n + 1);
    assert(after == up_step(ctx, run, event, now).0);
    lemma_exports_in_order(ctx, order, events, n);
    lemma_exports_in_order(ctx, order, events, n + 1);
    assert forall|r: UpRunView, o: Seq<usize>, pos: int|
        {
            let (end, action) = #[trigger] services_from(ctx, r, o, pos, now);
            &&& !(action is Show)
            &&& action is StartService ==> end.phase == UpPhase::Starting
        } by {
        lemma_services_behind_exports(ctx, r, o, pos, now);
    }
    if action_at(ctx, order, events, n) is Show {
        assert(run.phase == UpPhase::SavingFinal);
        assert(after.state.clusters == run.state.clusters);
        lemma_was_exported_later(ctx, order, events, after.state.clusters[q], n);
    } else {
        assert(after.phase == UpPhase::Starting);
    }
}

} // verus!
