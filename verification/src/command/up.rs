//! The `up` command: bring up the configured environment.
//!
//! Ensures the cross-cluster network, creates any clusters that do
//! not already exist, starts auto-start services, updates state, and
//! reports the result. Stacks are not applied here; they are managed
//! by the `stack` subcommands.
//!
//! What the command does next is decided here; the caller performs it and
//! reports what came of it. The command is an [`UpRun`] that [`run`] advances:
//! each call takes an event and returns the next action.

pub mod laws;
pub mod records;
pub mod render;
pub mod steps;
pub mod trace;

use vstd::prelude::*;
use crate::command::up::records::{
    config_too_large, digest_of_config, ensure_healthy, ensure_state_entry, health_plan_of,
    network_active, network_created, run_health_check, set_network_active, set_network_created,
    unhealthy_error, update_digest, upsert_svc_state, with_cluster, with_service, HealthPlan,
    HealthPlanView,
};
use crate::command::up::render::{
    cluster_result_views, render_all, service_result_views, setup_view, up_shown, ClusterResult,
    ClusterResultView, NetworkSetup, ServiceResult, ServiceResultView, SetupView,
};
use crate::config::validate::deps::has_dep_cycle;
use crate::config::validate::{is_cross_cluster, wants_cross_cluster};
use crate::config::{ForgeConfig, ServiceSpec};
use crate::context::{ForgeContext, Shown, ShownView};
use crate::error::{error_text, ErrorView, ForgeError};
use crate::naming::{
    container_name, container_name_of, kind_cluster_name, kind_name_of, network_name,
    network_name_of,
};
use crate::service::{dependency_order, is_start_order, no_start_order};
use crate::state::{
    record_operation, with_operation, ClusterPhase, ClusterView, ForgeState, ServiceHealth,
    StateView,
};
use crate::text::{join3, opt_text, same_text};

verus! {

// ---------------------------------------------------------------
// Events and actions
// ---------------------------------------------------------------

/// What came of an action.
#[derive(Debug)]
pub enum UpEvent {
    /// The command begins.
    Begin,
    /// The container runtime was found: its binary.
    Resolved(String),
    /// The state lock is held.
    Locked,
    /// The state was read.
    Loaded(ForgeState),
    /// The network exists.
    NetworkCreated,
    /// The address range of the network.
    NetworkInspected(String),
    /// Whether the cluster exists.
    ClusterFound(bool),
    /// The cluster was created.
    ClusterCreated,
    /// The kubeconfig was written.
    Exported,
    /// The service container was started.
    Started,
    /// Whether the health check passed.
    Probed(bool),
    /// The state was written.
    Saved,
    /// The action failed.
    Failed(ForgeError),
}

/// What came of an action, as contracts speak of it.
pub enum UpEventView {
    Begin,
    Resolved(Seq<char>),
    Locked,
    Loaded(StateView),
    NetworkCreated,
    NetworkInspected(Seq<char>),
    ClusterFound(bool),
    ClusterCreated,
    Exported,
    Started,
    Probed(bool),
    Saved,
    Failed(ErrorView),
}

impl UpEvent {
    pub open spec fn view(&self) -> UpEventView {
        match self {
            UpEvent::Begin => UpEventView::Begin,
            UpEvent::Resolved(binary) => UpEventView::Resolved(binary@),
            UpEvent::Locked => UpEventView::Locked,
            UpEvent::Loaded(st) => UpEventView::Loaded(st@),
            UpEvent::NetworkCreated => UpEventView::NetworkCreated,
            UpEvent::NetworkInspected(cidr) => UpEventView::NetworkInspected(cidr@),
            UpEvent::ClusterFound(found) => UpEventView::ClusterFound(*found),
            UpEvent::ClusterCreated => UpEventView::ClusterCreated,
            UpEvent::Exported => UpEventView::Exported,
            UpEvent::Started => UpEventView::Started,
            UpEvent::Probed(passed) => UpEventView::Probed(*passed),
            UpEvent::Saved => UpEventView::Saved,
            UpEvent::Failed(error) => UpEventView::Failed(error@),
        }
    }
}

/// What starting a service container needs to know besides the service.
#[derive(Clone, Debug)]
pub struct ServiceParams {
    /// Container runtime binary.
    pub binary: String,
    /// Container name.
    pub container_name: String,
    /// Environment name.
    pub env_name: String,
    /// Directory of the configuration file.
    pub config_dir: String,
    /// Directory of the persisted state.
    pub state_dir: String,
}

/// Service parameters as contracts speak of them.
pub struct ServiceParamsView {
    pub binary: Seq<char>,
    pub container_name: Seq<char>,
    pub env_name: Seq<char>,
    pub config_dir: Seq<char>,
    pub state_dir: Seq<char>,
}

impl ServiceParams {
    pub open spec fn view(&self) -> ServiceParamsView {
        ServiceParamsView {
            binary: self.binary@,
            container_name: self.container_name@,
            env_name: self.env_name@,
            config_dir: self.config_dir@,
            state_dir: self.state_dir@,
        }
    }
}

/// What to do next.
#[derive(Debug)]
pub enum UpAction {
    /// Find the container runtime.
    ResolveRuntime,
    /// Acquire the state lock.
    Lock,
    /// Read the state.
    Load,
    /// Create the network unless it exists.
    CreateNetwork {
        /// Network name.
        name: String,
    },
    /// Look up the address range of the network.
    InspectNetwork {
        /// Network name.
        name: String,
    },
    /// Look up whether a cluster exists.
    FindCluster {
        /// KIND cluster name.
        kind_name: String,
    },
    /// Create a cluster.
    CreateCluster {
        /// Position of the cluster in the configuration.
        cluster: usize,
        /// KIND cluster name.
        kind_name: String,
        /// Container network to create it on, if any.
        network: Option<String>,
    },
    /// Write a kubeconfig that containers can use.
    ExportKubeconfig {
        /// KIND cluster name.
        kind_name: String,
        /// Cluster name.
        name: String,
    },
    /// Start a service container.
    StartService {
        /// Position of the service in the configuration.
        service: usize,
        /// What starting it needs to know.
        params: ServiceParams,
    },
    /// Wait until a service is healthy.
    ProbeHealth {
        /// Position of the service in the configuration.
        service: usize,
        /// Address to probe.
        addr: String,
        /// Port to probe.
        port: u16,
    },
    /// Write the state of the run.
    Save,
    /// Show the result; the command succeeded.
    Show(Shown),
    /// Report the error; the command failed.
    Fail(ForgeError),
}

/// What to do next, as contracts speak of it.
pub enum UpActionView {
    ResolveRuntime,
    Lock,
    Load,
    CreateNetwork { name: Seq<char> },
    InspectNetwork { name: Seq<char> },
    FindCluster { kind_name: Seq<char> },
    CreateCluster { cluster: int, kind_name: Seq<char>, network: Option<Seq<char>> },
    ExportKubeconfig { kind_name: Seq<char>, name: Seq<char> },
    StartService { service: int, params: ServiceParamsView },
    ProbeHealth { service: int, addr: Seq<char>, port: u16 },
    Save,
    Show(ShownView),
    Fail(ErrorView),
}

impl UpAction {
    pub open spec fn view(&self) -> UpActionView {
        match self {
            UpAction::ResolveRuntime => UpActionView::ResolveRuntime,
            UpAction::Lock => UpActionView::Lock,
            UpAction::Load => UpActionView::Load,
            UpAction::CreateNetwork { name } => UpActionView::CreateNetwork { name: name@ },
            UpAction::InspectNetwork { name } => UpActionView::InspectNetwork { name: name@ },
            UpAction::FindCluster { kind_name } => UpActionView::FindCluster {
                kind_name: kind_name@,
            },
            UpAction::CreateCluster { cluster, kind_name, network } => UpActionView::CreateCluster {
                cluster: *cluster as int,
                kind_name: kind_name@,
                network: opt_text(*network),
            },
            UpAction::ExportKubeconfig { kind_name, name } => UpActionView::ExportKubeconfig {
                kind_name: kind_name@,
                name: name@,
            },
            UpAction::StartService { service, params } => UpActionView::StartService {
                service: *service as int,
                params: params@,
            },
            UpAction::ProbeHealth { service, addr, port } => UpActionView::ProbeHealth {
                service: *service as int,
                addr: addr@,
                port: *port,
            },
            UpAction::Save => UpActionView::Save,
            UpAction::Show(shown) => UpActionView::Show(shown@),
            UpAction::Fail(error) => UpActionView::Fail(error@),
        }
    }
}

// ---------------------------------------------------------------
// Runs
// ---------------------------------------------------------------

/// How far the command has come.
#[derive(Clone, Copy, Debug, PartialEq, Eq, Structural)]
pub enum UpPhase {
    /// Nothing was done.
    Start,
    /// The container runtime is looked for.
    Resolving,
    /// The state lock was asked for.
    Locking,
    /// The state was asked for.
    Loading,
    /// The network is being created.
    CreatingNetwork,
    /// The address range of the network is looked up.
    InspectingNetwork,
    /// The state is written after the network phase.
    SavingNetwork,
    /// A cluster is looked up.
    FindingCluster,
    /// The state is written before a cluster is created.
    SavingCreating,
    /// A cluster is being created.
    CreatingCluster,
    /// The state is written after the cluster phase.
    SavingClusters,
    /// A kubeconfig is being written.
    Exporting,
    /// A service is being started.
    Starting,
    /// The health of a service is being probed.
    Probing,
    /// The state is written after the service phase.
    SavingServices,
    /// The state is written at the end.
    SavingFinal,
    /// The state is written after a phase failed.
    SavingFailure,
    /// The command ended.
    Ended,
}

/// The command under way.
#[derive(Debug)]
pub struct UpRun {
    /// How far the command has come.
    pub phase: UpPhase,
    /// The state that the command works on.
    pub state: ForgeState,
    /// Container runtime binary.
    pub binary: String,
    /// Result of the network phase.
    pub net: Option<NetworkSetup>,
    /// Results of the clusters so far.
    pub clusters: Vec<ClusterResult>,
    /// Results of the services so far.
    pub services: Vec<ServiceResult>,
    /// Order in which services are started, if there is one.
    pub order: Option<Vec<usize>>,
    /// Position of the kubeconfig or service that is being worked on.
    pub next: usize,
    /// Why a phase failed.
    pub failure: Option<ForgeError>,
}

/// The command under way, as contracts speak of it.
pub struct UpRunView {
    /// How far the command has come.
    pub phase: UpPhase,
    /// The state that the command works on.
    pub state: StateView,
    /// Container runtime binary.
    pub binary: Seq<char>,
    /// Result of the network phase.
    pub net: Option<SetupView>,
    /// Results of the clusters so far.
    pub clusters: Seq<ClusterResultView>,
    /// Results of the services so far.
    pub services: Seq<ServiceResultView>,
    /// Order in which services are started, if there is one.
    pub order: Option<Seq<usize>>,
    /// Position of the kubeconfig or service that is being worked on.
    pub next: int,
    /// Why a phase failed.
    pub failure: Option<ErrorView>,
}

/// The order of a run.
pub open spec fn order_view(order: Option<Vec<usize>>) -> Option<Seq<usize>> {
    match order {
        Some(v) => Some(v@),
        None => None,
    }
}

/// The failure of a run.
pub open spec fn failure_view(failure: Option<ForgeError>) -> Option<ErrorView> {
    match failure {
        Some(e) => Some(e@),
        None => None,
    }
}

/// A run of which nothing was done.
pub open spec fn new_up_run(order: Option<Seq<usize>>) -> UpRunView {
    UpRunView {
        phase: UpPhase::Start,
        state: crate::state::empty_state(),
        binary: Seq::empty(),
        net: None,
        clusters: Seq::empty(),
        services: Seq::empty(),
        order,
        next: 0,
        failure: None,
    }
}

impl UpRun {
    pub open spec fn view(&self) -> UpRunView {
        UpRunView {
            phase: self.phase,
            state: self.state@,
            binary: self.binary@,
            net: setup_view(self.net),
            clusters: cluster_result_views(self.clusters@),
            services: service_result_views(self.services@),
            order: order_view(self.order),
            next: self.next as int,
            failure: failure_view(self.failure),
        }
    }

    /// A run of which nothing was done, with an order in which the services
    /// can be started, if there is one.
    pub fn new(ctx: &ForgeContext<'_>) -> (r: Self)
        ensures
            r@ == new_up_run(r@.order),
            match r@.order {
                Some(order) => is_start_order(ctx.config.spec.services@, order),
                None => has_dep_cycle(ctx.config.spec.services@),
            },
    {
        let order = match dependency_order(&ctx.config.spec.services) {
            Ok(order) => Some(order),
            Err(_) => None,
        };
        let r = UpRun {
            phase: UpPhase::Start,
            state: crate::state::empty(),
            binary: String::new(),
            net: None,
            clusters: Vec::new(),
            services: Vec::new(),
            order,
            next: 0,
            failure: None,
        };
        assert(r@.binary =~= Seq::empty());
        assert(r@.clusters =~= Seq::empty());
        assert(r@.services =~= Seq::empty());
        r
    }
}

/// A run at another point.
pub open spec fn at_up_phase(run: UpRunView, phase: UpPhase) -> UpRunView {
    UpRunView { phase, ..run }
}

/// The failure of a run that got an event it did not wait for.
pub open spec fn up_out_of_step() -> ErrorView {
    ErrorView::State("up command is out of step"@)
}

fn fail_out_of_step(run: &mut UpRun) -> (r: UpAction)
    ensures
        (final(run)@, r@) == (
            at_up_phase(old(run)@, UpPhase::Ended),
            UpActionView::Fail(up_out_of_step()),
        ),
{
    run.phase = UpPhase::Ended;
    UpAction::Fail(ForgeError::State("up command is out of step".to_owned()))
}

// ---------------------------------------------------------------
// Failing phases
// ---------------------------------------------------------------

/// What follows when a phase failed: the failed operation is recorded and the
/// state written before the failure is reported. A dry run writes nothing.
pub open spec fn phase_failed(
    ctx: ForgeContext,
    run: UpRunView,
    error: ErrorView,
    now: u64,
) -> (UpRunView, UpActionView) {
    let st = with_operation(run.state, "up"@, false, now);
    if ctx.dry_run {
        (UpRunView { phase: UpPhase::Ended, state: st, ..run }, UpActionView::Fail(error))
    } else {
        (
            UpRunView {
                phase: UpPhase::SavingFailure,
                state: st,
                failure: Some(error),
                ..run
            },
            UpActionView::Save,
        )
    }
}

/// Record the failed operation, keep the failure for later and have the state
/// written.
pub fn fail_phase(ctx: &ForgeContext<'_>, run: &mut UpRun, error: ForgeError, now: u64) -> (r:
    UpAction)
    ensures
        (final(run)@, r@) == phase_failed(*ctx, old(run)@, error@, now),
{
    record_operation(&mut run.state, "up", false, now);
    if ctx.dry_run {
        run.phase = UpPhase::Ended;
        return UpAction::Fail(error);
    }
    run.phase = UpPhase::SavingFailure;
    run.failure = Some(error);
    UpAction::Save
}

/// The failure of a run whose failed phase could not be recorded either.
pub open spec fn lost_checkpoint(error: ErrorView, save_error: ErrorView) -> ErrorView {
    ErrorView::State(
        error_text(error) + "; the failure was not recorded: "@ + error_text(save_error),
    )
}

/// Report a failed phase once the state was written, or could not be.
fn report_failure(run: &mut UpRun, save_error: Option<ForgeError>) -> (r: UpAction)
    ensures
        (final(run)@, r@) == (
            UpRunView { phase: UpPhase::Ended, failure: None, ..old(run)@ },
            UpActionView::Fail(
                match (old(run)@.failure, failure_view(save_error)) {
                    (Some(error), Some(lost)) => lost_checkpoint(error, lost),
                    (Some(error), None) => error,
                    (None, _) => up_out_of_step(),
                },
            ),
        ),
{
    let mut failure: Option<ForgeError> = None;
    std::mem::swap(&mut run.failure, &mut failure);
    run.phase = UpPhase::Ended;
    match (failure, save_error) {
        (Some(error), Some(lost)) => UpAction::Fail(
            ForgeError::State(
                join3(
                    &error.to_string(),
                    "; the failure was not recorded: ",
                    &lost.to_string(),
                ),
            ),
        ),
        (Some(error), None) => UpAction::Fail(error),
        (None, _) => UpAction::Fail(ForgeError::State("up command is out of step".to_owned())),
    }
}

// ---------------------------------------------------------------
// The end
// ---------------------------------------------------------------

/// What follows when every phase has ended: the digest and the operation are
/// recorded and the state written. A dry run shows the result at once.
pub open spec fn all_done(ctx: ForgeContext, run: UpRunView, now: u64) -> (
    UpRunView,
    UpActionView,
) {
    match digest_of_config(*ctx.config) {
        None => (at_up_phase(run, UpPhase::Ended), UpActionView::Fail(config_too_large())),
        Some(digest) => {
            let st = with_operation(
                StateView { config_digest: Some(digest), ..run.state },
                "up"@,
                true,
                now,
            );
            if ctx.dry_run {
                (
                    UpRunView { phase: UpPhase::Ended, state: st, ..run },
                    UpActionView::Show(
                        up_shown(ctx.format, run.net, run.clusters, run.services),
                    ),
                )
            } else {
                (UpRunView { phase: UpPhase::SavingFinal, state: st, ..run }, UpActionView::Save)
            }
        },
    }
}

fn finish(ctx: &ForgeContext<'_>, run: &mut UpRun, now: u64) -> (r: UpAction)
    ensures
        (final(run)@, r@) == all_done(*ctx, old(run)@, now),
{
    match update_digest(ctx, &mut run.state) {
        Ok(_) => {},
        Err(error) => {
            run.phase = UpPhase::Ended;
            return UpAction::Fail(error);
        },
    }
    record_operation(&mut run.state, "up", true, now);
    if ctx.dry_run {
        run.phase = UpPhase::Ended;
        return UpAction::Show(render_all(&run.net, &run.clusters, &run.services, ctx.format));
    }
    run.phase = UpPhase::SavingFinal;
    UpAction::Save
}

// ---------------------------------------------------------------
// Service startup
// ---------------------------------------------------------------

/// What follows the service phase.
pub open spec fn services_done(ctx: ForgeContext, run: UpRunView, now: u64) -> (
    UpRunView,
    UpActionView,
) {
    if ctx.dry_run {
        all_done(ctx, run, now)
    } else {
        (at_up_phase(run, UpPhase::SavingServices), UpActionView::Save)
    }
}

/// The result of a service.
pub open spec fn service_result(ctx: ForgeContext, svc: ServiceSpec) -> ServiceResultView {
    ServiceResultView {
        name: svc.name@,
        container_name: container_name_of(ctx.config.metadata.name@, svc.name@),
        dry_run: ctx.dry_run,
    }
}

/// The parameters of a service.
pub open spec fn params_of(
    ctx: ForgeContext,
    binary: Seq<char>,
    svc: ServiceSpec,
) -> ServiceParamsView {
    ServiceParamsView {
        binary,
        container_name: container_name_of(ctx.config.metadata.name@, svc.name@),
        env_name: ctx.config.metadata.name@,
        config_dir: ctx.config_dir@,
        state_dir: ctx.state_dir@,
    }
}

/// The failure of an order that names a service which is not configured.
pub open spec fn index_out_of_range() -> ErrorView {
    ErrorView::State("service index out of range"@)
}

/// What follows when the services before position `pos` of the order were
/// dealt with: the next service that is started automatically, or the end of
/// the phase. A dry run only lists the services.
pub open spec fn services_from(
    ctx: ForgeContext,
    run: UpRunView,
    order: Seq<usize>,
    pos: int,
    now: u64,
) -> (UpRunView, UpActionView)
    decreases order.len() - pos,
{
    let services = ctx.config.spec.services@;
    if pos < 0 || pos >= order.len() {
        services_done(ctx, run, now)
    } else if order[pos] >= services.len() {
        phase_failed(ctx, run, index_out_of_range(), now)
    } else {
        let svc = services[order[pos] as int];
        if !svc.auto_start {
            services_from(ctx, run, order, pos + 1, now)
        } else if ctx.dry_run {
            services_from(
                ctx,
                UpRunView { services: run.services.push(service_result(ctx, svc)), ..run },
                order,
                pos + 1,
                now,
            )
        } else {
            (
                UpRunView { phase: UpPhase::Starting, next: pos, ..run },
                UpActionView::StartService {
                    service: order[pos] as int,
                    params: params_of(ctx, run.binary, svc),
                },
            )
        }
    }
}

/// What follows the cluster phase and the export of kubeconfigs.
pub open spec fn services_begin(ctx: ForgeContext, run: UpRunView, now: u64) -> (
    UpRunView,
    UpActionView,
) {
    if ctx.config.spec.services@.len() == 0 {
        services_done(ctx, run, now)
    } else {
        match run.order {
            None => phase_failed(ctx, run, no_start_order(), now),
            Some(order) => services_from(ctx, run, order, 0, now),
        }
    }
}

fn end_services(ctx: &ForgeContext<'_>, run: &mut UpRun, now: u64) -> (r: UpAction)
    ensures
        (final(run)@, r@) == services_done(*ctx, old(run)@, now),
{
    if ctx.dry_run {
        return finish(ctx, run, now);
    }
    run.phase = UpPhase::SavingServices;
    UpAction::Save
}

/// Build service parameters from context.
pub fn build_svc_params(binary: &str, svc: &ServiceSpec, ctx: &ForgeContext<'_>) -> (r:
    ServiceParams)
    ensures
        r@ == params_of(*ctx, binary@, *svc),
{
    ServiceParams {
        binary: binary.to_owned(),
        container_name: container_name(&ctx.config.metadata.name, &svc.name),
        env_name: ctx.config.metadata.name.clone(),
        config_dir: ctx.config_dir.clone(),
        state_dir: ctx.state_dir.clone(),
    }
}

fn push_service(ctx: &ForgeContext<'_>, run: &mut UpRun, svc: &ServiceSpec)
    ensures
        final(run)@ == (UpRunView {
            services: old(run)@.services.push(service_result(*ctx, *svc)),
            ..old(run)@
        }),
{
    let ghost before = run.services@;
    let result = ServiceResult {
        name: svc.name.clone(),
        container_name: container_name(&ctx.config.metadata.name, &svc.name),
        dry_run: ctx.dry_run,
    };
    let ghost listed = result@;
    run.services.push(result);
    assert(service_result_views(run.services@) =~= service_result_views(before).push(listed));
}

/// Go on with the services from position `from` of the order on.
fn start_services_from(
    ctx: &ForgeContext<'_>,
    run: &mut UpRun,
    order: &Vec<usize>,
    from: usize,
    now: u64,
) -> (r: UpAction)
    ensures
        (final(run)@, r@) == services_from(*ctx, old(run)@, order@, from as int, now),
{
    let services = &ctx.config.spec.services;
    let ghost target = services_from(*ctx, run@, order@, from as int, now);
    let mut pos: usize = from;
    while pos < order.len()
        invariant
            services@ == ctx.config.spec.services@,
            target == services_from(*ctx, old(run)@, order@, from as int, now),
            target == services_from(*ctx, run@, order@, pos as int, now),
        decreases order.len() - pos,
    {
        let idx: usize = order[pos];
        if idx >= services.len() {
            return fail_phase(
                ctx,
                run,
                ForgeError::State("service index out of range".to_owned()),
                now,
            );
        }
        let svc = &services[idx];
        if svc.auto_start {
            if !ctx.dry_run {
                run.phase = UpPhase::Starting;
                run.next = pos;
                return UpAction::StartService {
                    service: idx,
                    params: build_svc_params(&run.binary, svc, ctx),
                };
            }
            push_service(ctx, run, svc);
        }
        pos += 1;
    }
    end_services(ctx, run, now)
}

/// Copies an order.
fn copy_order(order: &Vec<usize>) -> (r: Vec<usize>)
    ensures
        r@ == order@,
{
    let mut r: Vec<usize> = Vec::new();
    let mut i: usize = 0;
    while i < order.len()
        invariant
            i <= order@.len(),
            r@ == order@.take(i as int),
        decreases order.len() - i,
    {
        r.push(order[i]);
        i += 1;
        assert(r@ =~= order@.take(i as int));
    }
    assert(order@.take(i as int) =~= order@);
    r
}

/// Start configured services in dependency order.
pub fn start_services(ctx: &ForgeContext<'_>, run: &mut UpRun, now: u64) -> (r: UpAction)
    ensures
        (final(run)@, r@) == services_begin(*ctx, old(run)@, now),
{
    if ctx.config.spec.services.len() == 0 {
        return end_services(ctx, run, now);
    }
    let order = match &run.order {
        Some(order) => copy_order(order),
        None => {
            return fail_phase(
                ctx,
                run,
                ForgeError::Validation("service dependency cycle detected".to_owned()),
                now,
            );
        },
    };
    start_services_from(ctx, run, &order, 0, now)
}

/// What follows when the health of the service at position `run.next` of the
/// order is known: it is recorded, and the run fails if it is bad.
pub open spec fn service_observed(
    ctx: ForgeContext,
    run: UpRunView,
    order: Seq<usize>,
    health: ServiceHealth,
    now: u64,
) -> (UpRunView, UpActionView) {
    let svc = ctx.config.spec.services@[order[run.next] as int];
    let container = container_name_of(ctx.config.metadata.name@, svc.name@);
    let recorded = UpRunView {
        state: StateView {
            services: with_service(run.state.services, svc, container, health, now),
            ..run.state
        },
        ..run
    };
    if health == ServiceHealth::Unhealthy {
        phase_failed(ctx, recorded, unhealthy_error(svc, container), now)
    } else {
        services_from(
            ctx,
            UpRunView { services: recorded.services.push(service_result(ctx, svc)), ..recorded },
            order,
            run.next + 1,
            now,
        )
    }
}

/// True when the position of a run is that of a configured service.
pub open spec fn at_service(ctx: ForgeContext, run: UpRunView) -> bool {
    run.order matches Some(order) && 0 <= run.next < order.len() && order[run.next]
        < ctx.config.spec.services@.len()
}

/// What follows when the service at position `run.next` of the order was
/// started: its health is found out.
pub open spec fn service_started(ctx: ForgeContext, run: UpRunView, now: u64) -> (
    UpRunView,
    UpActionView,
) {
    let order = run.order->0;
    let svc = ctx.config.spec.services@[order[run.next] as int];
    match health_plan_of(svc) {
        HealthPlanView::Known(health) => service_observed(ctx, run, order, health, now),
        HealthPlanView::Probe { addr, port } => (
            at_up_phase(run, UpPhase::Probing),
            UpActionView::ProbeHealth { service: order[run.next] as int, addr, port },
        ),
    }
}

/// Record the health of the service that is being worked on.
fn finish_service(ctx: &ForgeContext<'_>, run: &mut UpRun, health: ServiceHealth, now: u64) -> (r:
    UpAction)
    requires
        at_service(*ctx, old(run)@),
    ensures
        (final(run)@, r@) == service_observed(
            *ctx,
            old(run)@,
            old(run)@.order->0,
            health,
            now,
        ),
{
    let order = match &run.order {
        Some(order) => copy_order(order),
        None => Vec::new(),
    };
    let pos: usize = run.next;
    let svc = &ctx.config.spec.services[order[pos]];
    let cname = container_name(&ctx.config.metadata.name, &svc.name);
    upsert_svc_state(&mut run.state, svc, &cname, health, now);
    match ensure_healthy(svc, &cname, health) {
        Ok(_) => {},
        Err(error) => {
            return fail_phase(ctx, run, error, now);
        },
    }
    push_service(ctx, run, svc);
    assert(pos < order.len());
    start_services_from(ctx, run, &order, pos + 1, now)
}

/// Go on with a service that was started.
pub fn start_one_svc(ctx: &ForgeContext<'_>, run: &mut UpRun, now: u64) -> (r: UpAction)
    requires
        at_service(*ctx, old(run)@),
    ensures
        (final(run)@, r@) == service_started(*ctx, old(run)@, now),
{
    let idx: usize = match &run.order {
        Some(order) => order[run.next],
        None => 0,
    };
    let svc = &ctx.config.spec.services[idx];
    match run_health_check(svc) {
        HealthPlan::Known(health) => finish_service(ctx, run, health, now),
        HealthPlan::Probe { addr, port } => {
            run.phase = UpPhase::Probing;
            UpAction::ProbeHealth { service: idx, addr, port }
        },
    }
}

fn is_at_service(ctx: &ForgeContext<'_>, run: &UpRun) -> (r: bool)
    ensures
        r == at_service(*ctx, run@),
{
    match &run.order {
        Some(order) => run.next < order.len() && order[run.next] < ctx.config.spec.services.len(),
        None => false,
    }
}

// ---------------------------------------------------------------
// Kubeconfig export
// ---------------------------------------------------------------

/// The first running cluster from position `k` on.
pub open spec fn next_running(clusters: Seq<ClusterView>, k: int) -> Option<int>
    decreases clusters.len() - k,
{
    if k < 0 || k >= clusters.len() {
        None
    } else if clusters[k].phase == ClusterPhase::Running {
        Some(k)
    } else {
        next_running(clusters, k + 1)
    }
}

/// What follows when the kubeconfigs of the clusters before position `k` were
/// exported: the next running cluster, or the service phase. Nothing is
/// exported in a dry run or where there are no services.
pub open spec fn exports_from(ctx: ForgeContext, run: UpRunView, k: int, now: u64) -> (
    UpRunView,
    UpActionView,
) {
    if ctx.dry_run || ctx.config.spec.services@.len() == 0 {
        services_begin(ctx, run, now)
    } else {
        match next_running(run.state.clusters, k) {
            Some(i) => (
                UpRunView { phase: UpPhase::Exporting, next: i, ..run },
                UpActionView::ExportKubeconfig {
                    kind_name: run.state.clusters[i].kind_name,
                    name: run.state.clusters[i].name,
                },
            ),
            None => services_begin(ctx, run, now),
        }
    }
}

/// Export container-reachable kubeconfigs for all running clusters from
/// position `from` on.
///
/// Skipped during dry-run. On a real run, exports a kubeconfig for
/// each cluster in state so services on the Docker network can
/// reach cluster API servers by DNS name.
pub fn export_kubeconfigs(ctx: &ForgeContext<'_>, run: &mut UpRun, from: usize, now: u64) -> (r:
    UpAction)
    ensures
        (final(run)@, r@) == exports_from(*ctx, old(run)@, from as int, now),
{
    if ctx.dry_run || ctx.config.spec.services.len() == 0 {
        return start_services(ctx, run, now);
    }
    let mut k: usize = from;
    while k < run.state.clusters.len()
        invariant
            *run == *old(run),
            next_running(run@.state.clusters, from as int) == next_running(
                run@.state.clusters,
                k as int,
            ),
            !ctx.dry_run,
            ctx.config.spec.services@.len() > 0,
        decreases run.state.clusters.len() - k,
    {
        let cluster = &run.state.clusters[k];
        assert(run@.state.clusters[k as int] == cluster@);
        if cluster.phase == ClusterPhase::Running {
            let kind_name = cluster.kind_name.clone();
            let name = cluster.name.clone();
            run.phase = UpPhase::Exporting;
            run.next = k;
            return UpAction::ExportKubeconfig { kind_name, name };
        }
        k += 1;
    }
    start_services(ctx, run, now)
}

// ---------------------------------------------------------------
// Cluster creation
// ---------------------------------------------------------------

/// The KIND name of a configured cluster.
pub open spec fn kind_name_in(config: ForgeConfig, i: int) -> Seq<char> {
    kind_name_of(config.spec.runtime.cluster_prefix@, config.spec.clusters@[i].name@)
}

/// The results of the clusters in a dry run.
pub open spec fn dry_clusters(config: ForgeConfig) -> Seq<ClusterResultView> {
    Seq::new(
        config.spec.clusters@.len(),
        |i: int|
            ClusterResultView {
                name: config.spec.clusters@[i].name@,
                kind_name: kind_name_in(config, i),
                created: false,
                dry_run: true,
            },
    )
}

/// What follows the cluster phase.
pub open spec fn clusters_done(ctx: ForgeContext, run: UpRunView, now: u64) -> (
    UpRunView,
    UpActionView,
) {
    if ctx.dry_run {
        exports_from(ctx, run, 0, now)
    } else {
        (at_up_phase(run, UpPhase::SavingClusters), UpActionView::Save)
    }
}

/// What follows when a number of clusters was dealt with: the next cluster, or
/// the end of the phase. A dry run only lists the clusters.
pub open spec fn clusters_next(ctx: ForgeContext, run: UpRunView, now: u64) -> (
    UpRunView,
    UpActionView,
) {
    if ctx.dry_run {
        clusters_done(ctx, UpRunView { clusters: dry_clusters(*ctx.config), ..run }, now)
    } else if run.clusters.len() < ctx.config.spec.clusters@.len() {
        (
            at_up_phase(run, UpPhase::FindingCluster),
            UpActionView::FindCluster {
                kind_name: kind_name_in(*ctx.config, run.clusters.len() as int),
            },
        )
    } else {
        clusters_done(ctx, run, now)
    }
}

/// Build a dry-run result without executing anything.
pub fn dry_run_result(name: &str, kind_name: &str) -> (r: ClusterResult)
    ensures
        r@ == (ClusterResultView {
            name: name@,
            kind_name: kind_name@,
            created: false,
            dry_run: true,
        }),
{
    ClusterResult {
        name: name.to_owned(),
        kind_name: kind_name.to_owned(),
        created: false,
        dry_run: true,
    }
}

fn list_dry_clusters(ctx: &ForgeContext<'_>) -> (r: Vec<ClusterResult>)
    ensures
        cluster_result_views(r@) == dry_clusters(*ctx.config),
{
    let clusters = &ctx.config.spec.clusters;
    let mut r: Vec<ClusterResult> = Vec::new();
    let mut i: usize = 0;
    while i < clusters.len()
        invariant
            clusters@ == ctx.config.spec.clusters@,
            i <= clusters@.len(),
            r@.len() == i,
            forall|k: int| 0 <= k < i ==> (#[trigger] r@[k])@ == dry_clusters(*ctx.config)[k],
        decreases clusters.len() - i,
    {
        let kind_name = kind_cluster_name(
            &ctx.config.spec.runtime.cluster_prefix,
            &clusters[i].name,
        );
        r.push(dry_run_result(&clusters[i].name, &kind_name));
        i += 1;
    }
    assert(cluster_result_views(r@) =~= dry_clusters(*ctx.config));
    r
}

/// Iterate configured clusters, creating any that are missing.
pub fn create_clusters(ctx: &ForgeContext<'_>, run: &mut UpRun, now: u64) -> (r: UpAction)
    ensures
        (final(run)@, r@) == clusters_next(*ctx, old(run)@, now),
{
    if ctx.dry_run {
        run.clusters = list_dry_clusters(ctx);
        return export_kubeconfigs(ctx, run, 0, now);
    }
    let done = run.clusters.len();
    if done < ctx.config.spec.clusters.len() {
        run.phase = UpPhase::FindingCluster;
        return UpAction::FindCluster {
            kind_name: kind_cluster_name(
                &ctx.config.spec.runtime.cluster_prefix,
                &ctx.config.spec.clusters[done].name,
            ),
        };
    }
    run.phase = UpPhase::SavingClusters;
    UpAction::Save
}

/// The container network that KIND clusters are created on, if any.
pub open spec fn kind_network(config: ForgeConfig) -> Option<Seq<char>> {
    if wants_cross_cluster(config.spec.network) {
        Some(network_name_of(config.metadata.name@))
    } else {
        None
    }
}

/// Determine the Docker network name for KIND clusters, if any.
pub fn docker_network_for_kind(ctx: &ForgeContext<'_>) -> (r: Option<String>)
    ensures
        opt_text(r) == kind_network(*ctx.config),
{
    if is_cross_cluster(&ctx.config.spec.network) {
        Some(network_name(&ctx.config.metadata.name))
    } else {
        None
    }
}

/// A run with the entry of its current cluster written.
pub open spec fn with_cluster_phase(
    ctx: ForgeContext,
    run: UpRunView,
    phase: ClusterPhase,
) -> UpRunView {
    let i = run.clusters.len() as int;
    UpRunView {
        state: StateView {
            clusters: with_cluster(
                run.state.clusters,
                ctx.config.spec.clusters@[i].name@,
                kind_name_in(*ctx.config, i),
                phase,
            ),
            ..run.state
        },
        ..run
    }
}

/// What follows when the current cluster exists: it is recorded as running.
pub open spec fn cluster_ready(
    ctx: ForgeContext,
    run: UpRunView,
    created: bool,
    now: u64,
) -> (UpRunView, UpActionView) {
    let i = run.clusters.len() as int;
    let recorded = with_cluster_phase(ctx, run, ClusterPhase::Running);
    clusters_next(
        ctx,
        UpRunView {
            clusters: recorded.clusters.push(
                ClusterResultView {
                    name: ctx.config.spec.clusters@[i].name@,
                    kind_name: kind_name_in(*ctx.config, i),
                    created,
                    dry_run: false,
                },
            ),
            ..recorded
        },
        now,
    )
}

/// Record a cluster that exists and go on with the next.
pub fn process_cluster(ctx: &ForgeContext<'_>, run: &mut UpRun, created: bool, now: u64) -> (r:
    UpAction)
    requires
        old(run)@.clusters.len() < ctx.config.spec.clusters@.len(),
    ensures
        (final(run)@, r@) == cluster_ready(*ctx, old(run)@, created, now),
{
    let done = run.clusters.len();
    let cluster = &ctx.config.spec.clusters[done];
    let kind_name = kind_cluster_name(&ctx.config.spec.runtime.cluster_prefix, &cluster.name);
    ensure_state_entry(&mut run.state, &cluster.name, &kind_name, ClusterPhase::Running);
    let ghost before = run.clusters@;
    let result = ClusterResult {
        name: cluster.name.clone(),
        kind_name,
        created,
        dry_run: false,
    };
    let ghost listed = result@;
    run.clusters.push(result);
    assert(cluster_result_views(run.clusters@) =~= cluster_result_views(before).push(listed));
    create_clusters(ctx, run, now)
}

/// What follows when it is known whether the current cluster exists. One that
/// does not is recorded as being created, and the state written, before it is
/// created.
pub open spec fn cluster_found(ctx: ForgeContext, run: UpRunView, found: bool, now: u64) -> (
    UpRunView,
    UpActionView,
) {
    if found {
        cluster_ready(ctx, run, false, now)
    } else {
        (
            at_up_phase(
                with_cluster_phase(ctx, run, ClusterPhase::Creating),
                UpPhase::SavingCreating,
            ),
            UpActionView::Save,
        )
    }
}

/// Create a cluster if it doesn't already exist.
///
/// A `Creating` entry is persisted before `kind create` runs: creation
/// takes minutes, and a crash mid-create would otherwise leave real
/// KIND containers with no state record for `forge down` to act on.
pub fn create_if_missing(ctx: &ForgeContext<'_>, run: &mut UpRun, found: bool, now: u64) -> (r:
    UpAction)
    requires
        old(run)@.clusters.len() < ctx.config.spec.clusters@.len(),
    ensures
        (final(run)@, r@) == cluster_found(*ctx, old(run)@, found, now),
{
    if found {
        return process_cluster(ctx, run, false, now);
    }
    let cluster = &ctx.config.spec.clusters[run.clusters.len()];
    let kind_name = kind_cluster_name(&ctx.config.spec.runtime.cluster_prefix, &cluster.name);
    ensure_state_entry(&mut run.state, &cluster.name, &kind_name, ClusterPhase::Creating);
    run.phase = UpPhase::SavingCreating;
    UpAction::Save
}

/// What follows when the current cluster is recorded as being created.
pub open spec fn cluster_recorded(ctx: ForgeContext, run: UpRunView) -> (UpRunView, UpActionView) {
    let i = run.clusters.len() as int;
    (
        at_up_phase(run, UpPhase::CreatingCluster),
        UpActionView::CreateCluster {
            cluster: i,
            kind_name: kind_name_in(*ctx.config, i),
            network: kind_network(*ctx.config),
        },
    )
}

fn create_cluster(ctx: &ForgeContext<'_>, run: &mut UpRun) -> (r: UpAction)
    requires
        old(run)@.clusters.len() < ctx.config.spec.clusters@.len(),
    ensures
        (final(run)@, r@) == cluster_recorded(*ctx, old(run)@),
{
    let done = run.clusters.len();
    run.phase = UpPhase::CreatingCluster;
    UpAction::CreateCluster {
        cluster: done,
        kind_name: kind_cluster_name(
            &ctx.config.spec.runtime.cluster_prefix,
            &ctx.config.spec.clusters[done].name,
        ),
        network: docker_network_for_kind(ctx),
    }
}

// ---------------------------------------------------------------
// Network setup
// ---------------------------------------------------------------

/// Check if the config requests cross-cluster networking.
pub fn wants_network(ctx: &ForgeContext<'_>) -> (r: bool)
    ensures
        r == wants_cross_cluster(ctx.config.spec.network),
{
    is_cross_cluster(&ctx.config.spec.network)
}

/// What follows the network phase.
pub open spec fn network_done(ctx: ForgeContext, run: UpRunView, now: u64) -> (
    UpRunView,
    UpActionView,
) {
    if ctx.dry_run {
        clusters_next(ctx, run, now)
    } else {
        (at_up_phase(run, UpPhase::SavingNetwork), UpActionView::Save)
    }
}

/// What follows when the state was read: the network is created if there is to
/// be one.
pub open spec fn network_begin(ctx: ForgeContext, run: UpRunView, now: u64) -> (
    UpRunView,
    UpActionView,
) {
    let name = network_name_of(ctx.config.metadata.name@);
    if !wants_cross_cluster(ctx.config.spec.network) {
        network_done(ctx, UpRunView { net: None, ..run }, now)
    } else if ctx.dry_run {
        network_done(ctx, UpRunView { net: Some(SetupView { name, dry_run: true }), ..run }, now)
    } else {
        (at_up_phase(run, UpPhase::CreatingNetwork), UpActionView::CreateNetwork { name })
    }
}

fn end_network(ctx: &ForgeContext<'_>, run: &mut UpRun, now: u64) -> (r: UpAction)
    ensures
        (final(run)@, r@) == network_done(*ctx, old(run)@, now),
{
    if ctx.dry_run {
        return create_clusters(ctx, run, now);
    }
    run.phase = UpPhase::SavingNetwork;
    UpAction::Save
}

/// Ensure the environment network exists if configured.
pub fn ensure_network(ctx: &ForgeContext<'_>, run: &mut UpRun, now: u64) -> (r: UpAction)
    ensures
        (final(run)@, r@) == network_begin(*ctx, old(run)@, now),
{
    if !wants_network(ctx) {
        run.net = None;
        return end_network(ctx, run, now);
    }
    let net_name = network_name(&ctx.config.metadata.name);
    if ctx.dry_run {
        run.net = Some(NetworkSetup { name: net_name, dry_run: true });
        return end_network(ctx, run, now);
    }
    run.phase = UpPhase::CreatingNetwork;
    UpAction::CreateNetwork { name: net_name }
}

/// What follows when the network exists: it is recorded before its address
/// range is looked up.
pub open spec fn network_made(ctx: ForgeContext, run: UpRunView) -> (UpRunView, UpActionView) {
    let name = network_name_of(ctx.config.metadata.name@);
    (
        UpRunView {
            phase: UpPhase::InspectingNetwork,
            state: StateView {
                network: Some(network_created(run.state.network, name)),
                ..run.state
            },
            ..run
        },
        UpActionView::InspectNetwork { name },
    )
}

/// What follows when the address range of the network is known.
pub open spec fn network_inspected(
    ctx: ForgeContext,
    run: UpRunView,
    cidr: Seq<char>,
    now: u64,
) -> (UpRunView, UpActionView) {
    let name = network_name_of(ctx.config.metadata.name@);
    network_done(
        ctx,
        UpRunView {
            state: StateView {
                network: Some(network_active(run.state.network, name, cidr)),
                ..run.state
            },
            net: Some(SetupView { name, dry_run: false }),
            ..run
        },
        now,
    )
}

/// The failure of a runtime that cannot share a network.
pub open spec fn docker_required(binary: Seq<char>) -> ErrorView {
    ErrorView::Runtime(
        "cross-cluster networking requires Docker; the resolved runtime is '"@ + binary + "'"@,
    )
}

/// Cross-cluster networking requires Docker.
pub fn require_docker_for_cross_cluster(binary: &str) -> (r: Result<(), ForgeError>)
    ensures
        if binary@ == "docker"@ {
            r is Ok
        } else {
            r matches Err(e) && e@ == docker_required(binary@)
        },
{
    if same_text(binary, "docker") {
        return Ok(());
    }
    Err(
        ForgeError::Runtime(
            join3(
                "cross-cluster networking requires Docker; the resolved runtime is '",
                binary,
                "'",
            ),
        ),
    )
}

/// What follows when the container runtime was found.
pub open spec fn runtime_resolved(ctx: ForgeContext, run: UpRunView, binary: Seq<char>) -> (
    UpRunView,
    UpActionView,
) {
    if wants_cross_cluster(ctx.config.spec.network) && binary != "docker"@ {
        (at_up_phase(run, UpPhase::Ended), UpActionView::Fail(docker_required(binary)))
    } else {
        (UpRunView { phase: UpPhase::Locking, binary, ..run }, UpActionView::Lock)
    }
}

fn check_runtime(ctx: &ForgeContext<'_>, run: &mut UpRun, binary: String) -> (r: UpAction)
    ensures
        (final(run)@, r@) == runtime_resolved(*ctx, old(run)@, binary@),
{
    if wants_network(ctx) {
        match require_docker_for_cross_cluster(&binary) {
            Ok(_) => {},
            Err(error) => {
                run.phase = UpPhase::Ended;
                return UpAction::Fail(error);
            },
        }
    }
    run.phase = UpPhase::Locking;
    run.binary = binary;
    UpAction::Lock
}

// ---------------------------------------------------------------
// The command
// ---------------------------------------------------------------

/// True when a run works on one of the configured clusters.
pub open spec fn at_cluster(ctx: ForgeContext, run: UpRunView) -> bool {
    run.clusters.len() < ctx.config.spec.clusters@.len()
}

/// True when the failure of an action in this phase is recorded in the state.
pub open spec fn is_checkpointed(phase: UpPhase) -> bool {
    ||| phase == UpPhase::CreatingNetwork
    ||| phase == UpPhase::InspectingNetwork
    ||| phase == UpPhase::FindingCluster
    ||| phase == UpPhase::SavingCreating
    ||| phase == UpPhase::CreatingCluster
    ||| phase == UpPhase::Starting
}

/// What the command does when an action failed.
pub open spec fn up_failed(ctx: ForgeContext, run: UpRunView, error: ErrorView, now: u64) -> (
    UpRunView,
    UpActionView,
) {
    if is_checkpointed(run.phase) {
        phase_failed(ctx, run, error, now)
    } else if run.phase == UpPhase::Probing && at_service(ctx, run) {
        service_observed(ctx, run, run.order->0, ServiceHealth::Unhealthy, now)
    } else if run.phase == UpPhase::SavingFailure {
        (
            UpRunView { phase: UpPhase::Ended, failure: None, ..run },
            UpActionView::Fail(
                match run.failure {
                    Some(first) => lost_checkpoint(first, error),
                    None => up_out_of_step(),
                },
            ),
        )
    } else {
        (at_up_phase(run, UpPhase::Ended), UpActionView::Fail(error))
    }
}

/// What the command does when the state was written.
pub open spec fn up_saved(ctx: ForgeContext, run: UpRunView, now: u64) -> (
    UpRunView,
    UpActionView,
) {
    match run.phase {
        UpPhase::SavingNetwork => clusters_next(ctx, run, now),
        UpPhase::SavingCreating => if at_cluster(ctx, run) {
            cluster_recorded(ctx, run)
        } else {
            (at_up_phase(run, UpPhase::Ended), UpActionView::Fail(up_out_of_step()))
        },
        UpPhase::SavingClusters => exports_from(ctx, run, 0, now),
        UpPhase::SavingServices => all_done(ctx, run, now),
        UpPhase::SavingFinal => (
            at_up_phase(run, UpPhase::Ended),
            UpActionView::Show(up_shown(ctx.format, run.net, run.clusters, run.services)),
        ),
        UpPhase::SavingFailure => (
            UpRunView { phase: UpPhase::Ended, failure: None, ..run },
            UpActionView::Fail(
                match run.failure {
                    Some(error) => error,
                    None => up_out_of_step(),
                },
            ),
        ),
        _ => (at_up_phase(run, UpPhase::Ended), UpActionView::Fail(up_out_of_step())),
    }
}

/// What the command does when it is known whether a cluster exists.
pub open spec fn up_found(ctx: ForgeContext, run: UpRunView, found: bool, now: u64) -> (
    UpRunView,
    UpActionView,
) {
    if run.phase == UpPhase::FindingCluster && at_cluster(ctx, run) {
        cluster_found(ctx, run, found, now)
    } else {
        (at_up_phase(run, UpPhase::Ended), UpActionView::Fail(up_out_of_step()))
    }
}

/// What the command does when a cluster was created.
pub open spec fn up_created(ctx: ForgeContext, run: UpRunView, now: u64) -> (
    UpRunView,
    UpActionView,
) {
    if run.phase == UpPhase::CreatingCluster && at_cluster(ctx, run) {
        cluster_ready(ctx, run, true, now)
    } else {
        (at_up_phase(run, UpPhase::Ended), UpActionView::Fail(up_out_of_step()))
    }
}

/// What the command does when a kubeconfig was written.
pub open spec fn up_exported(ctx: ForgeContext, run: UpRunView, now: u64) -> (
    UpRunView,
    UpActionView,
) {
    if run.phase == UpPhase::Exporting && run.next < run.state.clusters.len() {
        exports_from(ctx, run, run.next + 1, now)
    } else {
        (at_up_phase(run, UpPhase::Ended), UpActionView::Fail(up_out_of_step()))
    }
}

/// What the command does when a service was started.
pub open spec fn up_started(ctx: ForgeContext, run: UpRunView, now: u64) -> (
    UpRunView,
    UpActionView,
) {
    if run.phase == UpPhase::Starting && at_service(ctx, run) {
        service_started(ctx, run, now)
    } else {
        (at_up_phase(run, UpPhase::Ended), UpActionView::Fail(up_out_of_step()))
    }
}

/// What the command does when it is known whether a health check passed.
pub open spec fn up_probed(ctx: ForgeContext, run: UpRunView, passed: bool, now: u64) -> (
    UpRunView,
    UpActionView,
) {
    if run.phase == UpPhase::Probing && at_service(ctx, run) {
        service_observed(
            ctx,
            run,
            run.order->0,
            if passed {
                ServiceHealth::Healthy
            } else {
                ServiceHealth::Unhealthy
            },
            now,
        )
    } else {
        (at_up_phase(run, UpPhase::Ended), UpActionView::Fail(up_out_of_step()))
    }
}

/// What the command does up to the time when the state was read.
pub open spec fn up_opening(
    ctx: ForgeContext,
    run: UpRunView,
    event: UpEventView,
    now: u64,
) -> (UpRunView, UpActionView) {
    match (run.phase, event) {
        (UpPhase::Start, UpEventView::Begin) => (
            at_up_phase(run, UpPhase::Resolving),
            UpActionView::ResolveRuntime,
        ),
        (UpPhase::Resolving, UpEventView::Resolved(binary)) => runtime_resolved(ctx, run, binary),
        (UpPhase::Locking, UpEventView::Locked) => (
            at_up_phase(run, UpPhase::Loading),
            UpActionView::Load,
        ),
        (UpPhase::Loading, UpEventView::Loaded(st)) => network_begin(
            ctx,
            UpRunView { state: StateView { runtime: Some(run.binary), ..st }, ..run },
            now,
        ),
        _ => (at_up_phase(run, UpPhase::Ended), UpActionView::Fail(up_out_of_step())),
    }
}

/// What the command does in the network phase.
pub open spec fn up_network(
    ctx: ForgeContext,
    run: UpRunView,
    event: UpEventView,
    now: u64,
) -> (UpRunView, UpActionView) {
    match (run.phase, event) {
        (UpPhase::CreatingNetwork, UpEventView::NetworkCreated) => network_made(ctx, run),
        (UpPhase::InspectingNetwork, UpEventView::NetworkInspected(cidr)) => network_inspected(
            ctx,
            run,
            cidr,
            now,
        ),
        _ => (at_up_phase(run, UpPhase::Ended), UpActionView::Fail(up_out_of_step())),
    }
}

/// What the command does at an event.
pub open spec fn up_step(ctx: ForgeContext, run: UpRunView, event: UpEventView, now: u64) -> (
    UpRunView,
    UpActionView,
) {
    match event {
        UpEventView::Failed(error) => up_failed(ctx, run, error, now),
        UpEventView::Saved => up_saved(ctx, run, now),
        UpEventView::Begin => up_opening(ctx, run, event, now),
        UpEventView::Resolved(_) => up_opening(ctx, run, event, now),
        UpEventView::Locked => up_opening(ctx, run, event, now),
        UpEventView::Loaded(_) => up_opening(ctx, run, event, now),
        UpEventView::NetworkCreated => up_network(ctx, run, event, now),
        UpEventView::NetworkInspected(_) => up_network(ctx, run, event, now),
        UpEventView::ClusterFound(found) => up_found(ctx, run, found, now),
        UpEventView::ClusterCreated => up_created(ctx, run, now),
        UpEventView::Exported => up_exported(ctx, run, now),
        UpEventView::Started => up_started(ctx, run, now),
        UpEventView::Probed(passed) => up_probed(ctx, run, passed, now),
    }
}

fn on_failure(ctx: &ForgeContext<'_>, run: &mut UpRun, error: ForgeError, now: u64) -> (r: UpAction)
    ensures
        (final(run)@, r@) == up_failed(*ctx, old(run)@, error@, now),
{
    match run.phase {
        UpPhase::CreatingNetwork
        | UpPhase::InspectingNetwork
        | UpPhase::FindingCluster
        | UpPhase::SavingCreating
        | UpPhase::CreatingCluster
        | UpPhase::Starting => fail_phase(ctx, run, error, now),
        UpPhase::SavingFailure => report_failure(run, Some(error)),
        _ => {
            if run.phase == UpPhase::Probing && is_at_service(ctx, run) {
                return finish_service(ctx, run, ServiceHealth::Unhealthy, now);
            }
            run.phase = UpPhase::Ended;
            UpAction::Fail(error)
        },
    }
}

fn on_saved(ctx: &ForgeContext<'_>, run: &mut UpRun, now: u64) -> (r: UpAction)
    ensures
        (final(run)@, r@) == up_saved(*ctx, old(run)@, now),
{
    match run.phase {
        UpPhase::SavingNetwork => create_clusters(ctx, run, now),
        UpPhase::SavingCreating => {
            if run.clusters.len() < ctx.config.spec.clusters.len() {
                create_cluster(ctx, run)
            } else {
                fail_out_of_step(run)
            }
        },
        UpPhase::SavingClusters => export_kubeconfigs(ctx, run, 0, now),
        UpPhase::SavingServices => finish(ctx, run, now),
        UpPhase::SavingFinal => {
            run.phase = UpPhase::Ended;
            UpAction::Show(render_all(&run.net, &run.clusters, &run.services, ctx.format))
        },
        UpPhase::SavingFailure => report_failure(run, None),
        _ => fail_out_of_step(run),
    }
}

fn on_opening(ctx: &ForgeContext<'_>, run: &mut UpRun, event: UpEvent, now: u64) -> (r: UpAction)
    ensures
        (final(run)@, r@) == up_opening(*ctx, old(run)@, event@, now),
{
    match (run.phase, event) {
        (UpPhase::Start, UpEvent::Begin) => {
            run.phase = UpPhase::Resolving;
            UpAction::ResolveRuntime
        },
        (UpPhase::Resolving, UpEvent::Resolved(binary)) => check_runtime(ctx, run, binary),
        (UpPhase::Locking, UpEvent::Locked) => {
            run.phase = UpPhase::Loading;
            UpAction::Load
        },
        (UpPhase::Loading, UpEvent::Loaded(st)) => {
            run.state = st;
            run.state.runtime = Some(run.binary.clone());
            ensure_network(ctx, run, now)
        },
        _ => fail_out_of_step(run),
    }
}

fn on_network(ctx: &ForgeContext<'_>, run: &mut UpRun, event: UpEvent, now: u64) -> (r: UpAction)
    ensures
        (final(run)@, r@) == up_network(*ctx, old(run)@, event@, now),
{
    match (run.phase, event) {
        (UpPhase::CreatingNetwork, UpEvent::NetworkCreated) => {
            let net_name = network_name(&ctx.config.metadata.name);
            set_network_created(&mut run.state, &net_name);
            run.phase = UpPhase::InspectingNetwork;
            UpAction::InspectNetwork { name: net_name }
        },
        (UpPhase::InspectingNetwork, UpEvent::NetworkInspected(cidr)) => {
            let net_name = network_name(&ctx.config.metadata.name);
            set_network_active(&mut run.state, &net_name, &cidr);
            run.net = Some(NetworkSetup { name: net_name, dry_run: false });
            end_network(ctx, run, now)
        },
        _ => fail_out_of_step(run),
    }
}

fn on_found(ctx: &ForgeContext<'_>, run: &mut UpRun, found: bool, now: u64) -> (r: UpAction)
    ensures
        (final(run)@, r@) == up_found(*ctx, old(run)@, found, now),
{
    if run.phase == UpPhase::FindingCluster && run.clusters.len() < ctx.config.spec.clusters.len() {
        create_if_missing(ctx, run, found, now)
    } else {
        fail_out_of_step(run)
    }
}

fn on_created(ctx: &ForgeContext<'_>, run: &mut UpRun, now: u64) -> (r: UpAction)
    ensures
        (final(run)@, r@) == up_created(*ctx, old(run)@, now),
{
    if run.phase == UpPhase::CreatingCluster && run.clusters.len()
        < ctx.config.spec.clusters.len() {
        process_cluster(ctx, run, true, now)
    } else {
        fail_out_of_step(run)
    }
}

fn on_exported(ctx: &ForgeContext<'_>, run: &mut UpRun, now: u64) -> (r: UpAction)
    ensures
        (final(run)@, r@) == up_exported(*ctx, old(run)@, now),
{
    if run.phase == UpPhase::Exporting && run.next < run.state.clusters.len() {
        let from: usize = run.next + 1;
        export_kubeconfigs(ctx, run, from, now)
    } else {
        fail_out_of_step(run)
    }
}

fn on_started(ctx: &ForgeContext<'_>, run: &mut UpRun, now: u64) -> (r: UpAction)
    ensures
        (final(run)@, r@) == up_started(*ctx, old(run)@, now),
{
    if run.phase == UpPhase::Starting && is_at_service(ctx, run) {
        start_one_svc(ctx, run, now)
    } else {
        fail_out_of_step(run)
    }
}

fn on_probed(ctx: &ForgeContext<'_>, run: &mut UpRun, passed: bool, now: u64) -> (r: UpAction)
    ensures
        (final(run)@, r@) == up_probed(*ctx, old(run)@, passed, now),
{
    if run.phase == UpPhase::Probing && is_at_service(ctx, run) {
        let health = if passed {
            ServiceHealth::Healthy
        } else {
            ServiceHealth::Unhealthy
        };
        finish_service(ctx, run, health, now)
    } else {
        fail_out_of_step(run)
    }
}

/// Run the `up` command: what to do next, given what came of the last action.
#[verifier::rlimit(40)]
pub fn run(ctx: &ForgeContext<'_>, up: &mut UpRun, event: UpEvent, now: u64) -> (r: UpAction)
    ensures
        (final(up)@, r@) == up_step(*ctx, old(up)@, event@, now),
{
    match event {
        UpEvent::Failed(error) => on_failure(ctx, up, error, now),
        UpEvent::Saved => on_saved(ctx, up, now),
        UpEvent::Begin => on_opening(ctx, up, event, now),
        UpEvent::Resolved(_) => on_opening(ctx, up, event, now),
        UpEvent::Locked => on_opening(ctx, up, event, now),
        UpEvent::Loaded(_) => on_opening(ctx, up, event, now),
        UpEvent::NetworkCreated => on_network(ctx, up, event, now),
        UpEvent::NetworkInspected(_) => on_network(ctx, up, event, now),
        UpEvent::ClusterFound(found) => on_found(ctx, up, found, now),
        UpEvent::ClusterCreated => on_created(ctx, up, now),
        UpEvent::Exported => on_exported(ctx, up, now),
        UpEvent::Started => on_started(ctx, up, now),
        UpEvent::Probed(passed) => on_probed(ctx, up, passed, now),
    }
}

} // verus!
