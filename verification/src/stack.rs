//! Deployment stack lifecycle management.
//!
//! Applies composable deployment stacks to KIND clusters. What a command does
//! next is decided here; the caller performs it and reports what came of it.
//! A command is a [`StackRun`] that [`dispatch`] advances: each call takes an
//! event and returns the next action.

pub mod course;
pub mod laws;
pub mod records;
pub mod render;

use vstd::prelude::*;
use crate::config::{ClusterSpec, ForgeConfig, StackSpec};
use crate::context::{ForgeContext, OutputFormat, Shown, ShownView};
use crate::error::{error_text, ErrorView, ForgeError};
use crate::naming::{network_name, network_name_of};
use crate::stack::records::{
    build_network_params, configured_position, digest_of_stack, drift_of, filter_stack_states,
    find_configured, network_params_of, params_view, record_captures, record_pool_allocation,
    selected_stacks, set_stack_failed, stack_digest, stack_drifted, stack_ref_views,
    upsert_stack_state, with_allocation, with_captures, with_stack_entry, AllocationView,
    NetworkParams, ParamsView, PoolAllocation,
};
use crate::stack::render::{
    apply_shown, list_document, list_lines, plan_shown, planned_views, render_apply,
    render_list_json, render_list_text, render_plan, render_status_json, render_status_text,
    result_views, row_views, status_document, status_lines, ApplyResult, PlannedStack,
    PlannedStep, PlannedView, ResultView, RowView, StatusRow,
};
use crate::state::{
    captured_views, CapturedView, ForgeState, StackPhase, StackView, StateView,
};
use crate::strmap::{value_of, StrMap};
use crate::text::{borrow_text, join3, join4, opt_str, opt_text};

verus! {

// ---------------------------------------------------------------
// Commands, events and actions
// ---------------------------------------------------------------

/// A stack subcommand.
#[derive(Clone, Debug)]
pub enum StackCommand {
    /// List configured stacks.
    List,
    /// Show what applying stacks would do.
    Plan {
        /// Target cluster.
        cluster: String,
        /// The one stack to plan; all stacks of the cluster when unset.
        stack: Option<String>,
    },
    /// Apply stacks to a cluster.
    Apply {
        /// Target cluster.
        cluster: String,
        /// The one stack to apply; all stacks of the cluster when unset.
        stack: Option<String>,
    },
    /// Show applied stack status.
    Status {
        /// The one cluster to show; all clusters when unset.
        cluster: Option<String>,
    },
}

/// What applying a stack gave.
#[derive(Debug)]
pub struct ApplyOutcome {
    /// Number of steps executed.
    pub steps_executed: usize,
    /// Address range that was allocated, if any.
    pub pool_allocation: Option<PoolAllocation>,
    /// Values that were captured.
    pub captures: StrMap<String>,
}

/// What applying a stack gave, as contracts speak of it.
pub struct OutcomeView {
    /// Number of steps executed.
    pub steps_executed: nat,
    /// Address range that was allocated, if any.
    pub pool_allocation: Option<AllocationView>,
    /// Values that were captured.
    pub captures: CapturedView,
}

impl ApplyOutcome {
    pub open spec fn view(&self) -> OutcomeView {
        OutcomeView {
            steps_executed: self.steps_executed as nat,
            pool_allocation: match self.pool_allocation {
                Some(alloc) => Some(alloc@),
                None => None,
            },
            captures: captured_views(self.captures@),
        }
    }
}

/// What came of an action.
#[derive(Debug)]
pub enum StackEvent {
    /// The command begins.
    Begin,
    /// The state lock is held.
    Locked,
    /// The state was read.
    Loaded(ForgeState),
    /// A stack was expanded and rendered.
    Planned(Vec<PlannedStep>),
    /// A stack was applied, or failed to be.
    Applied(Result<ApplyOutcome, ForgeError>),
    /// The state was written.
    Saved,
    /// The action failed.
    Failed(ForgeError),
}

/// What came of an action, as contracts speak of it.
pub enum EventView {
    /// The command begins.
    Begin,
    /// The state lock is held.
    Locked,
    /// The state was read.
    Loaded(StateView),
    /// A stack was expanded and rendered.
    Planned(Seq<PlannedStep>),
    /// A stack was applied, or failed to be.
    Applied(Result<OutcomeView, ErrorView>),
    /// The state was written.
    Saved,
    /// The action failed.
    Failed(ErrorView),
}

/// The result of applying a stack.
pub open spec fn applied_view(r: Result<ApplyOutcome, ForgeError>) -> Result<
    OutcomeView,
    ErrorView,
> {
    match r {
        Ok(outcome) => Ok(outcome@),
        Err(error) => Err(error@),
    }
}

impl StackEvent {
    pub open spec fn view(&self) -> EventView {
        match self {
            StackEvent::Begin => EventView::Begin,
            StackEvent::Locked => EventView::Locked,
            StackEvent::Loaded(st) => EventView::Loaded(st@),
            StackEvent::Planned(steps) => EventView::Planned(steps@),
            StackEvent::Applied(r) => EventView::Applied(applied_view(*r)),
            StackEvent::Saved => EventView::Saved,
            StackEvent::Failed(error) => EventView::Failed(error@),
        }
    }
}

/// What to do next.
#[derive(Debug)]
pub enum StackAction {
    /// Acquire the state lock.
    Lock,
    /// Read the state.
    Load,
    /// Expand and render a stack against the state of the run.
    Plan {
        /// Stack name.
        stack: String,
        /// The shared network.
        network: Option<NetworkParams>,
    },
    /// Apply a stack with the captures in the state of the run.
    Apply {
        /// Stack name.
        stack: String,
        /// The shared network.
        network: Option<NetworkParams>,
    },
    /// Write the state of the run.
    Save,
    /// Show the result; the command succeeded.
    Show(Shown),
    /// Report the error; the command failed.
    Fail(ForgeError),
}

/// What to do next, as contracts speak of it.
pub enum ActionView {
    /// Acquire the state lock.
    Lock,
    /// Read the state.
    Load,
    /// Expand and render a stack.
    Plan {
        /// Stack name.
        stack: Seq<char>,
        /// The shared network.
        network: Option<ParamsView>,
    },
    /// Apply a stack.
    Apply {
        /// Stack name.
        stack: Seq<char>,
        /// The shared network.
        network: Option<ParamsView>,
    },
    /// Write the state of the run.
    Save,
    /// Show the result.
    Show(ShownView),
    /// Report the error.
    Fail(ErrorView),
}

impl StackAction {
    pub open spec fn view(&self) -> ActionView {
        match self {
            StackAction::Lock => ActionView::Lock,
            StackAction::Load => ActionView::Load,
            StackAction::Plan { stack, network } => ActionView::Plan {
                stack: stack@,
                network: params_view(*network),
            },
            StackAction::Apply { stack, network } => ActionView::Apply {
                stack: stack@,
                network: params_view(*network),
            },
            StackAction::Save => ActionView::Save,
            StackAction::Show(shown) => ActionView::Show(shown@),
            StackAction::Fail(error) => ActionView::Fail(error@),
        }
    }
}

/// How far a command has come.
#[derive(Clone, Copy, Debug, PartialEq, Eq, Structural)]
pub enum RunPhase {
    /// Nothing was done.
    Start,
    /// The state lock was asked for.
    Locking,
    /// The state was asked for.
    Loading,
    /// A stack is being planned.
    Planning,
    /// A stack is being applied.
    Applying,
    /// The state is being written.
    Saving,
    /// The command ended.
    Ended,
}

/// A command under way.
#[derive(Debug)]
pub struct StackRun {
    /// How far the command has come.
    pub phase: RunPhase,
    /// The state that the command works on.
    pub state: ForgeState,
    /// The stacks planned so far.
    pub planned: Vec<PlannedStack>,
    /// The results of the stacks applied so far.
    pub results: Vec<ApplyResult>,
    /// Digest of the stack that is being applied.
    pub digest: Option<String>,
}

/// A command under way, as contracts speak of it.
pub struct RunView {
    /// How far the command has come.
    pub phase: RunPhase,
    /// The state that the command works on.
    pub state: StateView,
    /// The stacks planned so far.
    pub planned: Seq<PlannedView>,
    /// The results of the stacks applied so far.
    pub results: Seq<ResultView>,
    /// Digest of the stack that is being applied.
    pub digest: Option<Seq<char>>,
}

impl StackRun {
    pub open spec fn view(&self) -> RunView {
        RunView {
            phase: self.phase,
            state: self.state@,
            planned: planned_views(self.planned@),
            results: result_views(self.results@),
            digest: opt_text(self.digest),
        }
    }

    /// A command of which nothing was done.
    pub fn new() -> (r: Self)
        ensures
            r@ == new_run(),
    {
        let r = StackRun {
            phase: RunPhase::Start,
            state: crate::state::empty(),
            planned: Vec::new(),
            results: Vec::new(),
            digest: None,
        };
        assert(r@.planned =~= Seq::empty());
        assert(r@.results =~= Seq::empty());
        r
    }
}

/// A command of which nothing was done.
pub open spec fn new_run() -> RunView {
    RunView {
        phase: RunPhase::Start,
        state: crate::state::empty_state(),
        planned: Seq::empty(),
        results: Seq::empty(),
        digest: None,
    }
}

/// A run at another point.
pub open spec fn at_phase(run: RunView, phase: RunPhase) -> RunView {
    RunView { phase, ..run }
}

// ---------------------------------------------------------------
// Lookups
// ---------------------------------------------------------------

/// The failure to find a cluster.
pub open spec fn cluster_not_found(name: Seq<char>) -> ErrorView {
    ErrorView::Config("cluster '"@ + name + "' not found"@)
}

/// The failure to find a stack.
pub open spec fn stack_not_found(name: Seq<char>) -> ErrorView {
    ErrorView::Config("stack '"@ + name + "' not found"@)
}

/// Find a cluster in the config by name.
pub fn lookup_cluster<'a>(ctx: &ForgeContext<'a>, name: &str) -> (r: Result<
    &'a ClusterSpec,
    ForgeError,
>)
    ensures
        match configured_position(ctx.config.spec.clusters@, name@, 0) {
            Some(i) => r matches Ok(cluster) && *cluster == ctx.config.spec.clusters@[i],
            None => r matches Err(e) && e@ == cluster_not_found(name@),
        },
{
    let config = ctx.config;
    match find_configured(&config.spec.clusters, name) {
        Some(i) => Ok(&config.spec.clusters[i]),
        None => Err(ForgeError::Config(join3("cluster '", name, "' not found"))),
    }
}

/// Find a stack entry (key+value) in the config.
pub fn lookup_stack_entry<'a>(ctx: &ForgeContext<'a>, name: &str) -> (r: Result<
    (String, &'a StackSpec),
    ForgeError,
>)
    ensures
        match value_of(ctx.config.spec.stacks@, name@) {
            Some(spec) => r matches Ok(entry) && entry.0@ == name@ && *entry.1 == spec,
            None => r matches Err(e) && e@ == stack_not_found(name@),
        },
{
    let config = ctx.config;
    match config.spec.stacks.get(name) {
        Some(spec) => Ok((name.to_owned(), spec)),
        None => Err(ForgeError::Config(join3("stack '", name, "' not found"))),
    }
}

/// Names and definitions of stacks.
pub type Entries = Seq<(Seq<char>, StackSpec)>;

/// The stacks that the first `n` references name, or the failure to find the
/// first that is missing.
pub open spec fn referenced_stacks(stacks: Entries, refs: Seq<String>, n: int) -> Result<
    Entries,
    ErrorView,
>
    decreases n,
{
    if n <= 0 {
        Ok(Seq::empty())
    } else {
        match referenced_stacks(stacks, refs, n - 1) {
            Ok(found) => match value_of(stacks, refs[n - 1]@) {
                Some(spec) => Ok(found.push((refs[n - 1]@, spec))),
                None => Err(stack_not_found(refs[n - 1]@)),
            },
            Err(error) => Err(error),
        }
    }
}

/// The stacks to work on: the one asked for, or all that the cluster
/// references.
pub open spec fn stacks_for(
    stacks: Entries,
    cluster: ClusterSpec,
    filter: Option<Seq<char>>,
) -> Result<Entries, ErrorView> {
    match filter {
        Some(name) => match value_of(stacks, name) {
            Some(spec) => Ok(seq![(name, spec)]),
            None => Err(stack_not_found(name)),
        },
        None => referenced_stacks(stacks, cluster.stacks@, cluster.stacks@.len() as int),
    }
}

/// The stacks of a list.
pub open spec fn entry_list(v: Seq<(String, &StackSpec)>) -> Entries {
    Seq::new(v.len(), |i: int| (v[i].0@, *v[i].1))
}

/// True when a lookup gave the expected stacks or failure.
pub open spec fn resolves(
    r: Result<Vec<(String, &StackSpec)>, ForgeError>,
    expected: Result<Entries, ErrorView>,
) -> bool {
    match expected {
        Ok(found) => r matches Ok(v) && entry_list(v@) == found,
        Err(error) => r matches Err(e) && e@ == error,
    }
}

/// Resolve all stacks assigned to a cluster.
pub fn resolve_cluster_stacks<'a>(ctx: &ForgeContext<'a>, cluster: &ClusterSpec) -> (r: Result<
    Vec<(String, &'a StackSpec)>,
    ForgeError,
>)
    ensures
        resolves(
            r,
            referenced_stacks(
                ctx.config.spec.stacks@,
                cluster.stacks@,
                cluster.stacks@.len() as int,
            ),
        ),
{
    let ghost stacks = ctx.config.spec.stacks@;
    let ghost refs = cluster.stacks@;
    let mut result: Vec<(String, &'a StackSpec)> = Vec::new();
    let mut i: usize = 0;
    assert(entry_list(result@) =~= Seq::empty());
    while i < cluster.stacks.len()
        invariant
            stacks == ctx.config.spec.stacks@,
            refs == cluster.stacks@,
            i <= cluster.stacks@.len(),
            referenced_stacks(stacks, refs, i as int) == Ok::<Entries, ErrorView>(
                entry_list(result@),
            ),
        decreases cluster.stacks.len() - i,
    {
        let ghost before = result@;
        match lookup_stack_entry(ctx, &cluster.stacks[i]) {
            Ok(entry) => {
                result.push(entry);
                assert(entry_list(result@) =~= entry_list(before).push((entry.0@, *entry.1)));
            },
            Err(error) => {
                assert(referenced_stacks(stacks, refs, i + 1) == Err::<Entries, ErrorView>(error@));
                proof {
                    lemma_missing_reference(stacks, refs, i + 1, refs.len() as int);
                }
                return Err(error);
            },
        }
        i += 1;
    }
    Ok(result)
}

proof fn lemma_missing_reference(stacks: Entries, refs: Seq<String>, i: int, n: int)
    requires
        0 <= i <= n,
        referenced_stacks(stacks, refs, i) is Err,
    ensures
        referenced_stacks(stacks, refs, n) == referenced_stacks(stacks, refs, i),
    decreases n - i,
{
    if i < n {
        lemma_missing_reference(stacks, refs, i, n - 1);
    }
}

/// Resolve which stacks to apply for a cluster.
pub fn resolve_stacks<'a>(
    ctx: &ForgeContext<'a>,
    cluster: &ClusterSpec,
    stack_filter: Option<&str>,
) -> (r: Result<Vec<(String, &'a StackSpec)>, ForgeError>)
    ensures
        resolves(r, stacks_for(ctx.config.spec.stacks@, *cluster, opt_str(stack_filter))),
{
    if let Some(name) = stack_filter {
        return match lookup_stack_entry(ctx, name) {
            Ok(entry) => {
                let mut result: Vec<(String, &'a StackSpec)> = Vec::new();
                result.push(entry);
                assert(entry_list(result@) =~= seq![(entry.0@, *entry.1)]);
                Ok(result)
            },
            Err(error) => Err(error),
        };
    }
    resolve_cluster_stacks(ctx, cluster)
}

/// The cluster to work on and its stacks, or the failure to find them.
pub open spec fn selection(
    config: ForgeConfig,
    cluster: Seq<char>,
    filter: Option<Seq<char>>,
) -> Result<(ClusterSpec, Entries), ErrorView> {
    match configured_position(config.spec.clusters@, cluster, 0) {
        Some(i) => match stacks_for(config.spec.stacks@, config.spec.clusters@[i], filter) {
            Ok(found) => Ok((config.spec.clusters@[i], found)),
            Err(error) => Err(error),
        },
        None => Err(cluster_not_found(cluster)),
    }
}

fn select<'a>(ctx: &ForgeContext<'a>, cluster_name: &str, stack_filter: Option<&str>) -> (r: Result<
    (&'a ClusterSpec, Vec<(String, &'a StackSpec)>),
    ForgeError,
>)
    ensures
        match selection(*ctx.config, cluster_name@, opt_str(stack_filter)) {
            Ok(pair) => r matches Ok(found) && *found.0 == pair.0 && entry_list(found.1@) == pair.1,
            Err(error) => r matches Err(e) && e@ == error,
        },
{
    let cluster = lookup_cluster(ctx, cluster_name)?;
    let stacks = resolve_stacks(ctx, cluster, stack_filter)?;
    Ok((cluster, stacks))
}

// ---------------------------------------------------------------
// List
// ---------------------------------------------------------------

/// The configured stacks as they are shown.
pub open spec fn list_shown(config: ForgeConfig, format: OutputFormat) -> ShownView {
    match format {
        OutputFormat::Json => ShownView::Document(list_document(config)),
        OutputFormat::Text => ShownView::Lines(list_lines(config.spec.stacks@)),
    }
}

/// List configured stacks.
pub fn handle_list(ctx: &ForgeContext<'_>) -> (r: Shown)
    ensures
        r@ == list_shown(*ctx.config, ctx.format),
{
    match ctx.format {
        OutputFormat::Json => Shown::Document(render_list_json(ctx)),
        OutputFormat::Text => Shown::Lines(render_list_text(ctx)),
    }
}

// ---------------------------------------------------------------
// Plan
// ---------------------------------------------------------------

/// The failure of a command that got an event it did not wait for.
pub open spec fn out_of_step() -> ErrorView {
    ErrorView::State("stack command is out of step"@)
}

fn fail_out_of_step() -> (r: StackAction)
    ensures
        r@ == ActionView::Fail(out_of_step()),
{
    StackAction::Fail(ForgeError::State("stack command is out of step".to_owned()))
}

/// What follows when a number of stacks was planned: the next stack, or the
/// plan.
pub open spec fn plan_next(
    config: ForgeConfig,
    format: OutputFormat,
    cluster: ClusterSpec,
    stacks: Entries,
    run: RunView,
) -> (RunView, ActionView) {
    if run.planned.len() < stacks.len() {
        (
            at_phase(run, RunPhase::Planning),
            ActionView::Plan {
                stack: stacks[run.planned.len() as int].0,
                network: network_params_of(config, cluster.name@, run.state),
            },
        )
    } else {
        (
            at_phase(run, RunPhase::Ended),
            ActionView::Show(plan_shown(format, cluster.name@, run.planned)),
        )
    }
}

/// What a plan does at an event.
pub open spec fn plan_step(
    config: ForgeConfig,
    format: OutputFormat,
    cluster_name: Seq<char>,
    filter: Option<Seq<char>>,
    run: RunView,
    event: EventView,
) -> (RunView, ActionView) {
    match selection(config, cluster_name, filter) {
        Err(error) => (at_phase(run, RunPhase::Ended), ActionView::Fail(error)),
        Ok((cluster, stacks)) => match (run.phase, event) {
            (RunPhase::Start, EventView::Begin) => (
                at_phase(run, RunPhase::Loading),
                ActionView::Load,
            ),
            (RunPhase::Loading, EventView::Loaded(st)) => plan_next(
                config,
                format,
                cluster,
                stacks,
                RunView { state: st, planned: Seq::empty(), ..run },
            ),
            (RunPhase::Planning, EventView::Planned(steps)) => if run.planned.len()
                < stacks.len() {
                plan_next(
                    config,
                    format,
                    cluster,
                    stacks,
                    RunView {
                        planned: run.planned.push(
                            PlannedView { name: stacks[run.planned.len() as int].0, steps },
                        ),
                        ..run
                    },
                )
            } else {
                (at_phase(run, RunPhase::Ended), ActionView::Fail(out_of_step()))
            },
            (_, EventView::Failed(error)) => (
                at_phase(run, RunPhase::Ended),
                ActionView::Fail(error),
            ),
            _ => (at_phase(run, RunPhase::Ended), ActionView::Fail(out_of_step())),
        },
    }
}

/// Expand and render each resolved stack against the same context apply uses.
///
/// State is read so cross-cluster captures and any recorded `MetalLB` pool
/// resolve; values apply computes live during this run render as placeholders.
fn plan_stacks(
    ctx: &ForgeContext<'_>,
    cluster: &ClusterSpec,
    stacks: &Vec<(String, &StackSpec)>,
    run: &mut StackRun,
) -> (r: StackAction)
    ensures
        (final(run)@, r@) == plan_next(
            *ctx.config,
            ctx.format,
            *cluster,
            entry_list(stacks@),
            old(run)@,
        ),
{
    let done = run.planned.len();
    if done < stacks.len() {
        run.phase = RunPhase::Planning;
        assert(entry_list(stacks@)[done as int].0 == stacks@[done as int].0@);
        StackAction::Plan {
            stack: stacks[done].0.clone(),
            network: build_network_params(ctx, cluster, &run.state),
        }
    } else {
        run.phase = RunPhase::Ended;
        StackAction::Show(render_plan(ctx.format, &cluster.name, &run.planned))
    }
}

/// Show what a stack apply would do.
///
/// Plan expands for-each steps and renders templates with the same context
/// `apply` builds, so it surfaces resolved URLs and values and catches
/// variable, property, and path errors up front.
pub fn handle_plan(
    ctx: &ForgeContext<'_>,
    cluster_name: &str,
    stack_filter: Option<&str>,
    run: &mut StackRun,
    event: StackEvent,
) -> (r: StackAction)
    ensures
        (final(run)@, r@) == plan_step(
            *ctx.config,
            ctx.format,
            cluster_name@,
            opt_str(stack_filter),
            old(run)@,
            event@,
        ),
{
    let (cluster, stacks) = match select(ctx, cluster_name, stack_filter) {
        Ok(found) => found,
        Err(error) => {
            run.phase = RunPhase::Ended;
            return StackAction::Fail(error);
        },
    };
    match (run.phase, event) {
        (RunPhase::Start, StackEvent::Begin) => {
            run.phase = RunPhase::Loading;
            StackAction::Load
        },
        (RunPhase::Loading, StackEvent::Loaded(st)) => {
            run.state = st;
            run.planned = Vec::new();
            assert(planned_views(run.planned@) =~= Seq::empty());
            plan_stacks(ctx, cluster, &stacks, run)
        },
        (RunPhase::Planning, StackEvent::Planned(steps)) => {
            let done = run.planned.len();
            if done < stacks.len() {
                let ghost before = run.planned@;
                assert(entry_list(stacks@)[done as int].0 == stacks@[done as int].0@);
                let stack = PlannedStack { name: stacks[done].0.clone(), steps };
                let ghost planned = stack@;
                run.planned.push(stack);
                assert(planned_views(run.planned@) =~= planned_views(before).push(planned));
                plan_stacks(ctx, cluster, &stacks, run)
            } else {
                run.phase = RunPhase::Ended;
                fail_out_of_step()
            }
        },
        (_, StackEvent::Failed(error)) => {
            run.phase = RunPhase::Ended;
            StackAction::Fail(error)
        },
        _ => {
            run.phase = RunPhase::Ended;
            fail_out_of_step()
        },
    }
}

// ---------------------------------------------------------------
// Apply
// ---------------------------------------------------------------

/// The state when applying a stack begins.
pub open spec fn begin_state(
    st: StateView,
    name: Seq<char>,
    cluster: Seq<char>,
    digest: Option<Seq<char>>,
    now: u64,
) -> StateView {
    with_stack_entry(
        st,
        StackView {
            name,
            cluster,
            phase: StackPhase::Applying,
            digest,
            timestamp: now,
            error: None,
        },
    )
}

/// The state when applying a stack has ended.
pub open spec fn ended_state(
    st: StateView,
    env: Seq<char>,
    name: Seq<char>,
    cluster: Seq<char>,
    digest: Option<Seq<char>>,
    outcome: Result<OutcomeView, ErrorView>,
    now: u64,
) -> StateView {
    match outcome {
        Ok(o) => {
            let allocated = match o.pool_allocation {
                Some(alloc) => StateView {
                    network: Some(
                        with_allocation(st.network, network_name_of(env), cluster, alloc),
                    ),
                    ..st
                },
                None => st,
            };
            let captured = StateView {
                captures: with_captures(allocated.captures, cluster, o.captures),
                ..allocated
            };
            with_stack_entry(
                captured,
                StackView {
                    name,
                    cluster,
                    phase: StackPhase::Applied,
                    digest,
                    timestamp: now,
                    error: None,
                },
            )
        },
        Err(error) => with_stack_entry(
            st,
            StackView {
                name,
                cluster,
                phase: StackPhase::Failed,
                digest,
                timestamp: now,
                error: Some(error_text(error)),
            },
        ),
    }
}

/// The result of applying a stack.
pub open spec fn result_of(name: Seq<char>, outcome: Result<OutcomeView, ErrorView>) -> ResultView {
    match outcome {
        Ok(o) => ResultView { name, steps_executed: o.steps_executed, success: true, error: None },
        Err(error) => ResultView {
            name,
            steps_executed: 0,
            success: false,
            error: Some(error_text(error)),
        },
    }
}

/// Update the state after a stack was applied, or failed to be.
pub fn apply_one(
    ctx: &ForgeContext<'_>,
    cluster: &ClusterSpec,
    name: &str,
    digest: Option<&str>,
    outcome: Result<ApplyOutcome, ForgeError>,
    st: &mut ForgeState,
    now: u64,
) -> (r: ApplyResult)
    ensures
        r@ == result_of(name@, applied_view(outcome)),
        final(st)@ == ended_state(
            old(st)@,
            ctx.config.metadata.name@,
            name@,
            cluster.name@,
            opt_str(digest),
            applied_view(outcome),
            now,
        ),
{
    match outcome {
        Ok(outcome) => {
            if let Some(alloc) = &outcome.pool_allocation {
                let network_name = network_name(&ctx.config.metadata.name);
                record_pool_allocation(st, &network_name, &cluster.name, alloc);
            }
            record_captures(st, &cluster.name, &outcome.captures);
            upsert_stack_state(st, name, &cluster.name, StackPhase::Applied, digest, now);
            ApplyResult {
                name: name.to_owned(),
                steps_executed: outcome.steps_executed,
                success: true,
                error: None,
            }
        },
        Err(error) => {
            let message = error.to_string();
            set_stack_failed(st, name, &cluster.name, digest, &message, now);
            ApplyResult {
                name: name.to_owned(),
                steps_executed: 0,
                success: false,
                error: Some(message),
            }
        },
    }
}

/// True when no further stack is to be applied: all were, or the last failed.
pub open spec fn apply_is_over(stacks: Entries, results: Seq<ResultView>) -> bool {
    results.len() >= stacks.len() || (results.len() > 0 && !results.last().success)
}

/// What follows when a number of stacks was applied: the next stack, or the
/// state is written.
pub open spec fn apply_next(
    config: ForgeConfig,
    cluster: ClusterSpec,
    stacks: Entries,
    run: RunView,
    now: u64,
) -> (RunView, ActionView) {
    if apply_is_over(stacks, run.results) {
        (at_phase(run, RunPhase::Saving), ActionView::Save)
    } else {
        let (name, spec) = stacks[run.results.len() as int];
        let digest = digest_of_stack(spec);
        let st = begin_state(run.state, name, cluster.name@, digest, now);
        (
            RunView { phase: RunPhase::Applying, state: st, digest, ..run },
            ActionView::Apply {
                stack: name,
                network: network_params_of(config, cluster.name@, st),
            },
        )
    }
}

/// Apply resolved stacks.
///
/// Stops after the first failed stack: later stacks can consume
/// captures recorded by earlier ones, so they are not applied on top
/// of an incomplete prerequisite.  State for the stacks already
/// attempted is still persisted.
fn apply_stacks(
    ctx: &ForgeContext<'_>,
    cluster: &ClusterSpec,
    stacks: &Vec<(String, &StackSpec)>,
    run: &mut StackRun,
    now: u64,
) -> (r: StackAction)
    ensures
        (final(run)@, r@) == apply_next(
            *ctx.config,
            *cluster,
            entry_list(stacks@),
            old(run)@,
            now,
        ),
{
    let done = run.results.len();
    if done > 0 {
        assert(run@.results.last() == run.results@[done - 1]@);
    }
    if done >= stacks.len() || (done > 0 && !run.results[done - 1].success) {
        run.phase = RunPhase::Saving;
        return StackAction::Save;
    }
    assert(entry_list(stacks@)[done as int] == (stacks@[done as int].0@, *stacks@[done as int].1));
    let name = stacks[done].0.clone();
    let digest = match stack_digest(stacks[done].1) {
        Ok(digest) => Some(digest),
        Err(_) => None,
    };
    upsert_stack_state(
        &mut run.state,
        &name,
        &cluster.name,
        StackPhase::Applying,
        borrow_text(&digest),
        now,
    );
    run.phase = RunPhase::Applying;
    run.digest = digest;
    let network = build_network_params(ctx, cluster, &run.state);
    StackAction::Apply { stack: name, network }
}

/// The failure that the results of an apply amount to, if any.
pub open spec fn apply_failure(cluster: Seq<char>, results: Seq<ResultView>, i: int) -> Option<
    ErrorView,
>
    decreases results.len() - i,
{
    if i < 0 || i >= results.len() {
        None
    } else if !results[i].success {
        Some(
            ErrorView::Command {
                program: "stack apply "@ + results[i].name + " -> "@ + cluster,
                message: match results[i].error {
                    Some(message) => message,
                    None => "stack step failed"@,
                },
            },
        )
    } else {
        apply_failure(cluster, results, i + 1)
    }
}

/// Convert a failed stack result into a command error after state is saved.
pub fn ensure_apply_success(cluster: &str, results: &Vec<ApplyResult>) -> (r: Result<
    (),
    ForgeError,
>)
    ensures
        match apply_failure(cluster@, result_views(results@), 0) {
            Some(error) => r matches Err(e) && e@ == error,
            None => r is Ok,
        },
{
    let ghost views = result_views(results@);
    let mut i: usize = 0;
    while i < results.len()
        invariant
            views == result_views(results@),
            i <= results@.len(),
            apply_failure(cluster@, views, 0) == apply_failure(cluster@, views, i as int),
        decreases results.len() - i,
    {
        let result = &results[i];
        assert(views[i as int] == result@);
        if !result.success {
            let message = match &result.error {
                Some(message) => message.clone(),
                None => "stack step failed".to_owned(),
            };
            return Err(
                ForgeError::Command {
                    program: join4("stack apply ", &result.name, " -> ", cluster),
                    message,
                },
            );
        }
        i += 1;
    }
    Ok(())
}

/// What an apply does at an event.
pub open spec fn apply_step(
    config: ForgeConfig,
    format: OutputFormat,
    cluster_name: Seq<char>,
    filter: Option<Seq<char>>,
    run: RunView,
    event: EventView,
    now: u64,
) -> (RunView, ActionView) {
    match selection(config, cluster_name, filter) {
        Err(error) => (at_phase(run, RunPhase::Ended), ActionView::Fail(error)),
        Ok((cluster, stacks)) => match (run.phase, event) {
            (RunPhase::Start, EventView::Begin) => (
                at_phase(run, RunPhase::Locking),
                ActionView::Lock,
            ),
            (RunPhase::Locking, EventView::Locked) => (
                at_phase(run, RunPhase::Loading),
                ActionView::Load,
            ),
            (RunPhase::Loading, EventView::Loaded(st)) => apply_next(
                config,
                cluster,
                stacks,
                RunView { state: st, results: Seq::empty(), ..run },
                now,
            ),
            (RunPhase::Applying, EventView::Applied(outcome)) => if run.results.len()
                < stacks.len() {
                let name = stacks[run.results.len() as int].0;
                apply_next(
                    config,
                    cluster,
                    stacks,
                    RunView {
                        state: ended_state(
                            run.state,
                            config.metadata.name@,
                            name,
                            cluster.name@,
                            run.digest,
                            outcome,
                            now,
                        ),
                        results: run.results.push(result_of(name, outcome)),
                        ..run
                    },
                    now,
                )
            } else {
                (at_phase(run, RunPhase::Ended), ActionView::Fail(out_of_step()))
            },
            (RunPhase::Saving, EventView::Saved) => (
                at_phase(run, RunPhase::Ended),
                match apply_failure(cluster_name, run.results, 0) {
                    Some(error) => ActionView::Fail(error),
                    None => ActionView::Show(apply_shown(format, cluster_name, run.results)),
                },
            ),
            (_, EventView::Failed(error)) => (
                at_phase(run, RunPhase::Ended),
                ActionView::Fail(error),
            ),
            _ => (at_phase(run, RunPhase::Ended), ActionView::Fail(out_of_step())),
        },
    }
}

/// Apply stacks to a cluster; a dry run plans them instead.
pub fn handle_apply(
    ctx: &ForgeContext<'_>,
    cluster_name: &str,
    stack_filter: Option<&str>,
    run: &mut StackRun,
    event: StackEvent,
    now: u64,
) -> (r: StackAction)
    ensures
        (final(run)@, r@) == if ctx.dry_run {
            plan_step(
                *ctx.config,
                ctx.format,
                cluster_name@,
                opt_str(stack_filter),
                old(run)@,
                event@,
            )
        } else {
            apply_step(
                *ctx.config,
                ctx.format,
                cluster_name@,
                opt_str(stack_filter),
                old(run)@,
                event@,
                now,
            )
        },
{
    if ctx.dry_run {
        return handle_plan(ctx, cluster_name, stack_filter, run, event);
    }
    let (cluster, stacks) = match select(ctx, cluster_name, stack_filter) {
        Ok(found) => found,
        Err(error) => {
            run.phase = RunPhase::Ended;
            return StackAction::Fail(error);
        },
    };
    match (run.phase, event) {
        (RunPhase::Start, StackEvent::Begin) => {
            run.phase = RunPhase::Locking;
            StackAction::Lock
        },
        (RunPhase::Locking, StackEvent::Locked) => {
            run.phase = RunPhase::Loading;
            StackAction::Load
        },
        (RunPhase::Loading, StackEvent::Loaded(st)) => {
            run.state = st;
            run.results = Vec::new();
            assert(result_views(run.results@) =~= Seq::empty());
            apply_stacks(ctx, cluster, &stacks, run, now)
        },
        (RunPhase::Applying, StackEvent::Applied(outcome)) => {
            let done = run.results.len();
            if done < stacks.len() {
                let ghost before = run.results@;
                assert(entry_list(stacks@)[done as int].0 == stacks@[done as int].0@);
                let result = apply_one(
                    ctx,
                    cluster,
                    &stacks[done].0,
                    borrow_text(&run.digest),
                    outcome,
                    &mut run.state,
                    now,
                );
                let ghost applied = result@;
                run.results.push(result);
                assert(result_views(run.results@) =~= result_views(before).push(applied));
                apply_stacks(ctx, cluster, &stacks, run, now)
            } else {
                run.phase = RunPhase::Ended;
                fail_out_of_step()
            }
        },
        (RunPhase::Saving, StackEvent::Saved) => {
            run.phase = RunPhase::Ended;
            match ensure_apply_success(cluster_name, &run.results) {
                Ok(_) => StackAction::Show(render_apply(cluster_name, &run.results, ctx.format)),
                Err(error) => StackAction::Fail(error),
            }
        },
        (_, StackEvent::Failed(error)) => {
            run.phase = RunPhase::Ended;
            StackAction::Fail(error)
        },
        _ => {
            run.phase = RunPhase::Ended;
            fail_out_of_step()
        },
    }
}

// ---------------------------------------------------------------
// Status
// ---------------------------------------------------------------

/// The rows of a status: the entries asked for, each with its drift.
pub open spec fn status_rows(
    config: ForgeConfig,
    st: StateView,
    cluster: Option<Seq<char>>,
) -> Seq<RowView> {
    let entries = selected_stacks(st.stacks, cluster, st.stacks.len() as int);
    Seq::new(
        entries.len(),
        |i: int|
            RowView { entry: entries[i], drifted: drift_of(config.spec.stacks@, entries[i]) },
    )
}

/// A status as it is shown.
pub open spec fn status_shown(format: OutputFormat, rows: Seq<RowView>) -> ShownView {
    match format {
        OutputFormat::Json => ShownView::Document(status_document(rows)),
        OutputFormat::Text => ShownView::Lines(status_lines(rows)),
    }
}

/// What a status does at an event.
pub open spec fn status_step(
    config: ForgeConfig,
    format: OutputFormat,
    cluster: Option<Seq<char>>,
    run: RunView,
    event: EventView,
) -> (RunView, ActionView) {
    match (run.phase, event) {
        (RunPhase::Start, EventView::Begin) => (
            at_phase(run, RunPhase::Loading),
            ActionView::Load,
        ),
        (RunPhase::Loading, EventView::Loaded(st)) => (
            RunView { phase: RunPhase::Ended, state: st, ..run },
            ActionView::Show(status_shown(format, status_rows(config, st, cluster))),
        ),
        (_, EventView::Failed(error)) => (
            at_phase(run, RunPhase::Ended),
            ActionView::Fail(error),
        ),
        _ => (at_phase(run, RunPhase::Ended), ActionView::Fail(out_of_step())),
    }
}

fn render_status(ctx: &ForgeContext<'_>, st: &ForgeState, cluster_filter: Option<&str>) -> (r:
    Shown)
    ensures
        r@ == status_shown(ctx.format, status_rows(*ctx.config, st@, opt_str(cluster_filter))),
{
    let entries = filter_stack_states(st, cluster_filter);
    let ghost all = status_rows(*ctx.config, st@, opt_str(cluster_filter));
    let mut rows: Vec<StatusRow<'_>> = Vec::new();
    let mut i: usize = 0;
    assert(row_views(rows@) =~= all.take(0));
    while i < entries.len()
        invariant
            all == status_rows(*ctx.config, st@, opt_str(cluster_filter)),
            stack_ref_views(entries@) == selected_stacks(
                st@.stacks,
                opt_str(cluster_filter),
                st@.stacks.len() as int,
            ),
            i <= entries@.len(),
            row_views(rows@) == all.take(i as int),
        decreases entries.len() - i,
    {
        let entry = entries[i];
        let ghost before = rows@;
        assert(stack_ref_views(entries@)[i as int] == entry@);
        let row = StatusRow { entry, drifted: stack_drifted(ctx, entry) };
        assert(row@ == all[i as int]);
        let ghost shown = row@;
        rows.push(row);
        i += 1;
        assert(row_views(rows@) =~= row_views(before).push(shown));
        assert(row_views(rows@) =~= all.take(i as int));
    }
    assert(all.take(i as int) =~= all);
    match ctx.format {
        OutputFormat::Json => Shown::Document(render_status_json(&rows)),
        OutputFormat::Text => Shown::Lines(render_status_text(&rows)),
    }
}

/// Show applied stack status.
pub fn handle_status(
    ctx: &ForgeContext<'_>,
    cluster_filter: Option<&str>,
    run: &mut StackRun,
    event: StackEvent,
) -> (r: StackAction)
    ensures
        (final(run)@, r@) == status_step(
            *ctx.config,
            ctx.format,
            opt_str(cluster_filter),
            old(run)@,
            event@,
        ),
{
    match (run.phase, event) {
        (RunPhase::Start, StackEvent::Begin) => {
            run.phase = RunPhase::Loading;
            StackAction::Load
        },
        (RunPhase::Loading, StackEvent::Loaded(st)) => {
            run.phase = RunPhase::Ended;
            run.state = st;
            StackAction::Show(render_status(ctx, &run.state, cluster_filter))
        },
        (_, StackEvent::Failed(error)) => {
            run.phase = RunPhase::Ended;
            StackAction::Fail(error)
        },
        _ => {
            run.phase = RunPhase::Ended;
            fail_out_of_step()
        },
    }
}

// ---------------------------------------------------------------
// Public dispatch
// ---------------------------------------------------------------

/// What a command does at an event.
pub open spec fn stack_step(
    ctx: ForgeContext,
    cmd: StackCommand,
    run: RunView,
    event: EventView,
    now: u64,
) -> (RunView, ActionView) {
    match cmd {
        StackCommand::List => (
            at_phase(run, RunPhase::Ended),
            ActionView::Show(list_shown(*ctx.config, ctx.format)),
        ),
        StackCommand::Plan { cluster, stack } => plan_step(
            *ctx.config,
            ctx.format,
            cluster@,
            opt_text(stack),
            run,
            event,
        ),
        StackCommand::Apply { cluster, stack } => if ctx.dry_run {
            plan_step(*ctx.config, ctx.format, cluster@, opt_text(stack), run, event)
        } else {
            apply_step(*ctx.config, ctx.format, cluster@, opt_text(stack), run, event, now)
        },
        StackCommand::Status { cluster } => status_step(
            *ctx.config,
            ctx.format,
            opt_text(cluster),
            run,
            event,
        ),
    }
}

/// Dispatch a stack subcommand: what to do next, given what came of the last
/// action.
pub fn dispatch(
    ctx: &ForgeContext<'_>,
    cmd: &StackCommand,
    run: &mut StackRun,
    event: StackEvent,
    now: u64,
) -> (r: StackAction)
    ensures
        (final(run)@, r@) == stack_step(*ctx, *cmd, old(run)@, event@, now),
{
    match cmd {
        StackCommand::List => {
            run.phase = RunPhase::Ended;
            StackAction::Show(handle_list(ctx))
        },
        StackCommand::Plan { cluster, stack } => handle_plan(
            ctx,
            cluster,
            borrow_text(stack),
            run,
            event,
        ),
        StackCommand::Apply { cluster, stack } => handle_apply(
            ctx,
            cluster,
            borrow_text(stack),
            run,
            event,
            now,
        ),
        StackCommand::Status { cluster } => handle_status(ctx, borrow_text(cluster), run, event),
    }
}

} // verus!
