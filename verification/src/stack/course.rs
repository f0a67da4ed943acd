//! What stack commands come to: which stacks they work on, what they tell each
//! of them, and what is recorded in the end.

use vstd::prelude::*;
use vstd::utf8::encode_utf8;
use crate::config::document::laws::{
    law_stack_text_determines_the_stack, same_stack, stack_is_plain,
};
use crate::config::document::stack_json;
use crate::config::{ClusterSpec, ForgeConfig, StackSpec};
use crate::context::{ForgeContext, OutputFormat};
use crate::digest::{collide, hex, law_digests_tell_texts_apart, sha256};
use crate::error::{error_text, ErrorView};
use crate::json::compact;
use crate::stack::laws::entry_of;
use crate::stack::records::{
    configured_position, digest_of_stack, drift_of, law_allocation_is_recorded,
    law_captures_are_merged, law_stack_entry_is_what_was_written, network_params_of,
    selected_stacks,
};
use crate::stack::render::{apply_shown, plan_shown, ResultView};
use crate::stack::{
    apply_failure, apply_step, begin_state, ended_state, list_shown, new_run, plan_step,
    referenced_stacks, selection, stack_step, status_rows, status_shown, status_step, ActionView,
    Entries, EventView, OutcomeView, RunPhase, RunView, StackCommand,
};
use crate::state::{
    pool_position, stack_position, CapturedView, NetworkPhase, PoolView, StackPhase, StackView,
    StateView,
};
use crate::strmap::{keys_ascend, lemma_precedes_irreflexive, value_of};
use crate::text::{byte_len, opt_text};

verus! {

// ---------------------------------------------------------------
// Network parameters
// ---------------------------------------------------------------

/// True when no two clusters of a configuration share a name.
pub open spec fn clusters_distinct(config: ForgeConfig) -> bool {
    forall|i: int, j: int|
        0 <= i < j < config.spec.clusters@.len() ==> (#[trigger] config.spec.clusters@[i]).name@
            != (#[trigger] config.spec.clusters@[j]).name@
}

proof fn lemma_configured(clusters: Seq<ClusterSpec>, name: Seq<char>, i: int)
    requires
        0 <= i <= clusters.len(),
    ensures
        match configured_position(clusters, name, i) {
            Some(k) => i <= k < clusters.len() && clusters[k].name@ == name && forall|m: int|
                i <= m < k ==> (#[trigger] clusters[m]).name@ != name,
            None => forall|m: int|
                i <= m < clusters.len() ==> (#[trigger] clusters[m]).name@ != name,
        },
    decreases clusters.len() - i,
{
    if i < clusters.len() {
        lemma_configured(clusters, name, i + 1);
    }
}

proof fn lemma_pool(pools: Seq<PoolView>, cluster: Seq<char>, i: int)
    requires
        0 <= i <= pools.len(),
    ensures
        match pool_position(pools, cluster, i) {
            Some(k) => i <= k < pools.len() && pools[k].cluster == cluster && forall|m: int|
                i <= m < k ==> (#[trigger] pools[m]).cluster != cluster,
            None => forall|m: int|
                i <= m < pools.len() ==> (#[trigger] pools[m]).cluster != cluster,
        },
    decreases pools.len() - i,
{
    if i < pools.len() {
        lemma_pool(pools, cluster, i + 1);
    }
}

/// Where the clusters share a network, the steps for a cluster are told its
/// position among the clusters and how many there are, and the zone that is
/// configured, or else `forge.test`. Where they do not, there is nothing to tell.
pub proof fn law_clusters_are_told_their_position(config: ForgeConfig, k: int, st: StateView)
    requires
        clusters_distinct(config),
        0 <= k < config.spec.clusters@.len(),
    ensures
        ({
            let params = network_params_of(config, config.spec.clusters@[k].name@, st);
            match config.spec.network {
                Some(net) => if net.cross_cluster {
                    &&& params is Some
                    &&& params->0.cluster_index == k
                    &&& params->0.cluster_count == config.spec.clusters@.len()
                    &&& params->0.dns_zone == match net.dns_zone {
                        Some(zone) => zone@,
                        None => "forge.test"@,
                    }
                } else {
                    params is None
                },
                None => params is None,
            }
        }),
{
    lemma_configured(config.spec.clusters@, config.spec.clusters@[k].name@, 0);
}

/// No two clusters that share a network are told the same position, and every
/// position lies below the number of clusters.
pub proof fn law_positions_are_apart(
    config: ForgeConfig,
    j: int,
    k: int,
    st: StateView,
    later: StateView,
)
    requires
        clusters_distinct(config),
        config.spec.network matches Some(net) && net.cross_cluster,
        0 <= j < config.spec.clusters@.len(),
        0 <= k < config.spec.clusters@.len(),
        j != k,
    ensures
        ({
            let a = network_params_of(config, config.spec.clusters@[j].name@, st);
            let b = network_params_of(config, config.spec.clusters@[k].name@, later);
            &&& a is Some && b is Some
            &&& a->0.cluster_index != b->0.cluster_index
            &&& 0 <= a->0.cluster_index < a->0.cluster_count
        }),
{
    law_clusters_are_told_their_position(config, j, st);
    law_clusters_are_told_their_position(config, k, later);
}

/// The address range that the steps for a cluster are told is the first one that
/// the state records for this cluster; none, if it records none.
pub proof fn law_clusters_are_told_their_own_pool(
    config: ForgeConfig,
    cluster: Seq<char>,
    st: StateView,
)
    requires
        config.spec.network matches Some(net) && net.cross_cluster,
    ensures
        ({
            let told = network_params_of(config, cluster, st)->0.cluster_pool;
            match st.network {
                Some(net) => match told {
                    Some(range) => exists|i: int|
                        0 <= i < net.pools.len() && (#[trigger] net.pools[i]).cluster == cluster
                            && net.pools[i].range == range && forall|m: int|
                            0 <= m < i ==> (#[trigger] net.pools[m]).cluster != cluster,
                    None => forall|i: int|
                        0 <= i < net.pools.len() ==> (#[trigger] net.pools[i]).cluster != cluster,
                },
                None => told is None,
            }
        }),
{
    if let Some(net) = st.network {
        lemma_pool(net.pools, cluster, 0);
        if let Some(i) = pool_position(net.pools, cluster, 0) {
            assert(net.pools[i].cluster == cluster);
        }
    }
}

// ---------------------------------------------------------------
// Selection
// ---------------------------------------------------------------

/// True when a configuration has a stack of a name, with a definition.
pub open spec fn is_configured(stacks: Entries, name: Seq<char>, spec: StackSpec) -> bool {
    exists|i: int|
        0 <= i < stacks.len() && (#[trigger] stacks[i]).0 == name && stacks[i].1 == spec
}

/// True when a configuration has no stack of a name.
pub open spec fn is_unknown(stacks: Entries, name: Seq<char>) -> bool {
    forall|i: int| 0 <= i < stacks.len() ==> (#[trigger] stacks[i]).0 != name
}

proof fn lemma_value_of(stacks: Entries, name: Seq<char>)
    ensures
        match value_of(stacks, name) {
            Some(spec) => is_configured(stacks, name, spec),
            None => is_unknown(stacks, name),
        },
    decreases stacks.len(),
{
    if stacks.len() > 0 {
        let rest = stacks.drop_first();
        lemma_value_of(rest, name);
        if stacks[0].0 != name {
            match value_of(rest, name) {
                Some(spec) => {
                    let i = choose|i: int|
                        0 <= i < rest.len() && (#[trigger] rest[i]).0 == name && rest[i].1 == spec;
                    assert(stacks[i + 1] == rest[i]);
                },
                None => {
                    assert forall|i: int| 0 <= i < stacks.len() implies (#[trigger] stacks[i]).0
                        != name by {
                        if i > 0 {
                            assert(rest[i - 1] == stacks[i]);
                        }
                    }
                },
            }
        } else {
            assert(stacks[0].0 == name);
        }
    }
}

proof fn lemma_referenced(stacks: Entries, refs: Seq<String>, n: int)
    requires
        0 <= n <= refs.len(),
    ensures
        match referenced_stacks(stacks, refs, n) {
            Ok(found) => {
                &&& found.len() == n
                &&& forall|i: int|
                    0 <= i < n ==> (#[trigger] found[i]).0 == refs[i]@ && is_configured(
                        stacks,
                        refs[i]@,
                        found[i].1,
                    )
            },
            Err(error) => exists|i: int|
                0 <= i < n && is_unknown(stacks, (#[trigger] refs[i])@) && error
                    == ErrorView::Config("stack '"@ + refs[i]@ + "' not found"@) && forall|j: int|
                    0 <= j < i ==> !is_unknown(stacks, (#[trigger] refs[j])@),
        },
    decreases n,
{
    if n > 0 {
        lemma_referenced(stacks, refs, n - 1);
        lemma_value_of(stacks, refs[n - 1]@);
        if let Ok(found) = referenced_stacks(stacks, refs, n - 1) {
            assert forall|j: int| 0 <= j < n - 1 implies !is_unknown(
                stacks,
                (#[trigger] refs[j])@,
            ) by {
                assert(found[j].0 == refs[j]@);
                let i = choose|i: int|
                    0 <= i < stacks.len() && (#[trigger] stacks[i]).0 == refs[j]@ && stacks[i].1
                        == found[j].1;
                assert(stacks[i].0 == refs[j]@);
            }
            if value_of(stacks, refs[n - 1]@) is None {
                assert(is_unknown(stacks, refs[n - 1]@));
            }
        }
    }
}

/// A command for a cluster works on the first configured cluster of that name.
/// Without a filter it works on the stacks that the cluster refers to, each once
/// and in the order of the references, with the definitions that are configured
/// under these names. With a filter it works on the named stack alone. It fails
/// where the cluster or one of the stacks is not configured, and names the first
/// that is not.
pub proof fn law_selection_follows_the_configuration(
    config: ForgeConfig,
    cluster: Seq<char>,
    filter: Option<Seq<char>>,
)
    ensures
        ({
            let clusters = config.spec.clusters@;
            let stacks = config.spec.stacks@;
            match selection(config, cluster, filter) {
                Ok((found, list)) => {
                    &&& exists|c: int|
                        0 <= c < clusters.len() && found == #[trigger] clusters[c] && found.name@
                            == cluster && forall|m: int|
                            0 <= m < c ==> (#[trigger] clusters[m]).name@ != cluster
                    &&& match filter {
                        Some(name) => list.len() == 1 && list[0].0 == name && is_configured(
                            stacks,
                            name,
                            list[0].1,
                        ),
                        None => list.len() == found.stacks@.len() && forall|i: int|
                            0 <= i < list.len() ==> (#[trigger] list[i]).0 == found.stacks@[i]@
                                && is_configured(stacks, list[i].0, list[i].1),
                    }
                },
                Err(error) => {
                    ||| {
                        &&& forall|c: int|
                            0 <= c < clusters.len() ==> (#[trigger] clusters[c]).name@ != cluster
                        &&& error == ErrorView::Config("cluster '"@ + cluster + "' not found"@)
                    }
                    ||| exists|c: int|
                        0 <= c < clusters.len() && (#[trigger] clusters[c]).name@ == cluster
                            && match filter {
                            Some(name) => is_unknown(stacks, name) && error == ErrorView::Config(
                                "stack '"@ + name + "' not found"@,
                            ),
                            None => exists|i: int|
                                0 <= i < clusters[c].stacks@.len() && is_unknown(
                                    stacks,
                                    (#[trigger] clusters[c].stacks@[i])@,
                                ) && error == ErrorView::Config(
                                    "stack '"@ + clusters[c].stacks@[i]@ + "' not found"@,
                                ),
                        }
                },
            }
        }),
{
    let clusters = config.spec.clusters@;
    lemma_configured(clusters, cluster, 0);
    if let Some(c) = configured_position(clusters, cluster, 0) {
        assert(clusters[c].name@ == cluster);
        let refs = clusters[c].stacks@;
        lemma_referenced(config.spec.stacks@, refs, refs.len() as int);
        if let Some(name) = filter {
            lemma_value_of(config.spec.stacks@, name);
        }
    }
}

// ---------------------------------------------------------------
// Planning
// ---------------------------------------------------------------

/// True when a plan has dealt with the stacks in their order.
pub open spec fn planned_in_order(stacks: Entries, run: RunView) -> bool {
    run.phase == RunPhase::Planning ==> {
        &&& run.planned.len() < stacks.len()
        &&& forall|i: int| 0 <= i < run.planned.len() ==> (#[trigger] run.planned[i]).name
            == stacks[i].0
    }
}

/// A plan asks for every stack in order, with the network parameters of the
/// cluster, keeps what it is told of each under the name of the stack, and shows
/// the whole when none is left.
pub proof fn law_plans_cover_every_stack(
    config: ForgeConfig,
    format: OutputFormat,
    cluster_name: Seq<char>,
    filter: Option<Seq<char>>,
    run: RunView,
    event: EventView,
)
    requires
        selection(config, cluster_name, filter) is Ok,
        planned_in_order(selection(config, cluster_name, filter)->Ok_0.1, run),
    ensures
        ({
            let stacks = selection(config, cluster_name, filter)->Ok_0.1;
            let (after, action) = plan_step(config, format, cluster_name, filter, run, event);
            &&& planned_in_order(stacks, after)
            &&& event matches EventView::Planned(steps) ==> run.phase == RunPhase::Planning ==> {
                &&& after.planned.len() == run.planned.len() + 1
                &&& after.planned.drop_last() == run.planned
                &&& after.planned.last().steps == steps
                &&& after.planned.last().name == stacks[run.planned.len() as int].0
            }
            &&& event matches EventView::Loaded(st) ==> run.phase == RunPhase::Loading
                ==> after.planned.len() == 0 && after.state == st
            &&& action matches ActionView::Plan { stack, network } ==> {
                &&& after.phase == RunPhase::Planning
                &&& stack == stacks[after.planned.len() as int].0
                &&& network == network_params_of(config, cluster_name, after.state)
            }
            &&& action matches ActionView::Show(shown) ==> {
                &&& after.planned.len() == stacks.len()
                &&& forall|i: int|
                    0 <= i < stacks.len() ==> (#[trigger] after.planned[i]).name == stacks[i].0
                &&& shown == plan_shown(format, cluster_name, after.planned)
            }
            &&& event matches EventView::Failed(error) ==> action == ActionView::Fail(error)
        }),
{
    lemma_configured(config.spec.clusters@, cluster_name, 0);
    if event is Planned && run.phase == RunPhase::Planning {
        let after = plan_step(config, format, cluster_name, filter, run, event).0;
        assert(after.planned.drop_last() =~= run.planned);
    }
}

/// What a plan waits for brings it on: it begins by reading the state, and then
/// asks for its first stack, or shows an empty plan.
pub proof fn law_plans_begin(
    config: ForgeConfig,
    format: OutputFormat,
    cluster_name: Seq<char>,
    filter: Option<Seq<char>>,
    run: RunView,
    st: StateView,
    steps: Seq<crate::stack::render::PlannedStep>,
)
    requires
        selection(config, cluster_name, filter) is Ok,
    ensures
        ({
            let stacks = selection(config, cluster_name, filter)->Ok_0.1;
            let begun = plan_step(config, format, cluster_name, filter, run, EventView::Begin);
            let read = plan_step(config, format, cluster_name, filter, run, EventView::Loaded(st));
            let told = plan_step(
                config,
                format,
                cluster_name,
                filter,
                run,
                EventView::Planned(steps),
            );
            &&& run.phase == RunPhase::Start ==> begun.1 is Load && begun.0.phase
                == RunPhase::Loading
            &&& run.phase == RunPhase::Loading ==> {
                &&& stacks.len() > 0 ==> read.1 is Plan
                &&& stacks.len() == 0 ==> read.1 is Show
            }
            &&& run.phase == RunPhase::Planning && run.planned.len() < stacks.len() ==> {
                &&& run.planned.len() + 1 < stacks.len() ==> told.1 is Plan
                &&& run.planned.len() + 1 == stacks.len() ==> told.1 is Show
            }
        }),
{
}

// ---------------------------------------------------------------
// Applying
// ---------------------------------------------------------------

/// True when no two of the stacks share a name.
pub open spec fn stacks_distinct(stacks: Entries) -> bool {
    forall|i: int, j: int|
        0 <= i < j < stacks.len() ==> (#[trigger] stacks[i]).0 != (#[trigger] stacks[j]).0
}

/// True when the state says of a stack that it was applied, with its digest.
pub open spec fn is_recorded_applied(
    st: StateView,
    cluster: Seq<char>,
    entry: (Seq<char>, StackSpec),
) -> bool {
    &&& entry_of(st, entry.0, cluster) is Some
    &&& entry_of(st, entry.0, cluster)->0.phase == StackPhase::Applied
    &&& entry_of(st, entry.0, cluster)->0.digest == digest_of_stack(entry.1)
    &&& entry_of(st, entry.0, cluster)->0.error is None
}

/// True when the state says of a stack that it failed, with its digest and what
/// went wrong.
pub open spec fn is_recorded_failed(
    st: StateView,
    cluster: Seq<char>,
    entry: (Seq<char>, StackSpec),
    error: Option<Seq<char>>,
) -> bool {
    &&& entry_of(st, entry.0, cluster) is Some
    &&& entry_of(st, entry.0, cluster)->0.phase == StackPhase::Failed
    &&& entry_of(st, entry.0, cluster)->0.digest == digest_of_stack(entry.1)
    &&& entry_of(st, entry.0, cluster)->0.error == error
}

/// True when the state records what came of every stack that was attempted.
pub open spec fn results_recorded(
    stacks: Entries,
    cluster: Seq<char>,
    st: StateView,
    results: Seq<ResultView>,
) -> bool {
    &&& results.len() <= stacks.len()
    &&& forall|i: int|
        #![trigger results[i]]
        0 <= i < results.len() ==> {
            &&& results[i].name == stacks[i].0
            &&& results[i].success ==> is_recorded_applied(st, cluster, stacks[i])
            &&& !results[i].success ==> is_recorded_failed(st, cluster, stacks[i], results[i].error)
        }
}

/// True when an apply has recorded what it did so far: what came of every stack
/// that was attempted, and that the next one is being applied. It writes the
/// state when the last stack failed, or when none is left.
pub open spec fn apply_recorded(stacks: Entries, cluster: Seq<char>, run: RunView) -> bool {
    match run.phase {
        RunPhase::Applying => {
            let k = run.results.len() as int;
            &&& results_recorded(stacks, cluster, run.state, run.results)
            &&& k < stacks.len()
            &&& forall|i: int| 0 <= i < k ==> (#[trigger] run.results[i]).success
            &&& run.digest == digest_of_stack(stacks[k].1)
            &&& entry_of(run.state, stacks[k].0, cluster) is Some
            &&& entry_of(run.state, stacks[k].0, cluster)->0.phase == StackPhase::Applying
            &&& entry_of(run.state, stacks[k].0, cluster)->0.digest == digest_of_stack(stacks[k].1)
            &&& entry_of(run.state, stacks[k].0, cluster)->0.error is None
        },
        RunPhase::Saving => {
            &&& results_recorded(stacks, cluster, run.state, run.results)
            &&& forall|i: int| 0 <= i < run.results.len() - 1 ==> (#[trigger] run.results[i]).success
            &&& run.results.len() < stacks.len() ==> run.results.len() > 0
                && !run.results.last().success
        },
        _ => true,
    }
}

proof fn lemma_entry_written(
    st: StateView,
    entry: StackView,
    name: Seq<char>,
    cluster: Seq<char>,
)
    ensures
        ({
            let after = crate::stack::records::with_stack_entry(st, entry);
            if name == entry.name && cluster == entry.cluster {
                entry_of(after, name, cluster) == Some(entry)
            } else {
                entry_of(after, name, cluster) == entry_of(st, name, cluster)
            }
        }),
{
    law_stack_entry_is_what_was_written(st.stacks, entry, name, cluster);
}

proof fn lemma_begun(
    st: StateView,
    name: Seq<char>,
    cluster: Seq<char>,
    digest: Option<Seq<char>>,
    now: u64,
)
    ensures
        ({
            let after = begin_state(st, name, cluster, digest, now);
            &&& entry_of(after, name, cluster) == Some(
                StackView {
                    name,
                    cluster,
                    phase: StackPhase::Applying,
                    digest,
                    timestamp: now,
                    error: None,
                },
            )
            &&& forall|other: Seq<char>|
                other != name ==> #[trigger] entry_of(after, other, cluster) == entry_of(
                    st,
                    other,
                    cluster,
                )
        }),
{
    let entry = StackView {
        name,
        cluster,
        phase: StackPhase::Applying,
        digest,
        timestamp: now,
        error: None,
    };
    let after = begin_state(st, name, cluster, digest, now);
    lemma_entry_written(st, entry, name, cluster);
    assert forall|other: Seq<char>| other != name implies #[trigger] entry_of(after, other, cluster)
        == entry_of(st, other, cluster) by {
        lemma_entry_written(st, entry, other, cluster);
    }
}

proof fn lemma_ended(
    st: StateView,
    env: Seq<char>,
    name: Seq<char>,
    cluster: Seq<char>,
    digest: Option<Seq<char>>,
    outcome: Result<OutcomeView, ErrorView>,
    now: u64,
)
    ensures
        ({
            let after = ended_state(st, env, name, cluster, digest, outcome, now);
            &&& entry_of(after, name, cluster) == Some(
                StackView {
                    name,
                    cluster,
                    phase: if outcome is Ok {
                        StackPhase::Applied
                    } else {
                        StackPhase::Failed
                    },
                    digest,
                    timestamp: now,
                    error: match outcome {
                        Ok(_) => None,
                        Err(error) => Some(error_text(error)),
                    },
                },
            )
            &&& forall|other: Seq<char>|
                other != name ==> #[trigger] entry_of(after, other, cluster) == entry_of(
                    st,
                    other,
                    cluster,
                )
        }),
{
    let entry = StackView {
        name,
        cluster,
        phase: if outcome is Ok {
            StackPhase::Applied
        } else {
            StackPhase::Failed
        },
        digest,
        timestamp: now,
        error: match outcome {
            Ok(_) => None,
            Err(error) => Some(error_text(error)),
        },
    };
    let after = ended_state(st, env, name, cluster, digest, outcome, now);
    lemma_entry_written(st, entry, name, cluster);
    assert forall|other: Seq<char>| other != name implies #[trigger] entry_of(after, other, cluster)
        == entry_of(st, other, cluster) by {
        lemma_entry_written(st, entry, other, cluster);
    }
}

/// Whatever happens, an apply has recorded what came of every stack that it
/// attempted: as applied with the digest of its definition, or as failed with
/// what went wrong, and the one under way as being applied, each at the time at
/// which it happened. Each stack is told the network parameters of the cluster.
pub proof fn law_apply_records_what_it_did(
    config: ForgeConfig,
    format: OutputFormat,
    cluster_name: Seq<char>,
    filter: Option<Seq<char>>,
    run: RunView,
    event: EventView,
    now: u64,
)
    requires
        selection(config, cluster_name, filter) is Ok,
        stacks_distinct(selection(config, cluster_name, filter)->Ok_0.1),
        apply_recorded(selection(config, cluster_name, filter)->Ok_0.1, cluster_name, run),
    ensures
        ({
            let stacks = selection(config, cluster_name, filter)->Ok_0.1;
            let (after, action) = apply_step(
                config,
                format,
                cluster_name,
                filter,
                run,
                event,
                now,
            );
            &&& apply_recorded(stacks, cluster_name, after)
            &&& action matches ActionView::Apply { stack, network } ==> {
                &&& after.phase == RunPhase::Applying
                &&& stack == stacks[after.results.len() as int].0
                &&& entry_of(after.state, stack, cluster_name) is Some
                &&& entry_of(after.state, stack, cluster_name)->0.timestamp == now
                &&& network == network_params_of(config, cluster_name, after.state)
            }
            &&& event matches EventView::Applied(outcome) ==> run.phase == RunPhase::Applying ==> {
                &&& after.results.len() == run.results.len() + 1
                &&& after.results.drop_last() == run.results
                &&& entry_of(after.state, stacks[run.results.len() as int].0, cluster_name) is Some
                &&& entry_of(
                    after.state,
                    stacks[run.results.len() as int].0,
                    cluster_name,
                )->0.timestamp == now
                &&& match outcome {
                    Ok(o) => after.results.last().success && after.results.last().error is None
                        && after.results.last().steps_executed == o.steps_executed,
                    Err(error) => !after.results.last().success && after.results.last().error
                        == Some(error_text(error)) && after.results.last().steps_executed == 0,
                }
            }
            &&& action is Save ==> after.phase == RunPhase::Saving
            &&& event matches EventView::Failed(error) ==> action == ActionView::Fail(error)
        }),
{
    let stacks = selection(config, cluster_name, filter)->Ok_0.1;
    let cluster = selection(config, cluster_name, filter)->Ok_0.0;
    let (after, action) = apply_step(config, format, cluster_name, filter, run, event, now);
    lemma_configured(config.spec.clusters@, cluster_name, 0);
    assert(cluster.name@ == cluster_name);
    match event {
        EventView::Loaded(st) => {
            if run.phase == RunPhase::Loading && stacks.len() > 0 {
                let digest = digest_of_stack(stacks[0].1);
                lemma_begun(st, stacks[0].0, cluster_name, digest, now);
            }
        },
        EventView::Applied(outcome) => {
            if run.phase == RunPhase::Applying {
                let k = run.results.len() as int;
                let ended = ended_state(
                    run.state,
                    config.metadata.name@,
                    stacks[k].0,
                    cluster_name,
                    run.digest,
                    outcome,
                    now,
                );
                lemma_ended(
                    run.state,
                    config.metadata.name@,
                    stacks[k].0,
                    cluster_name,
                    run.digest,
                    outcome,
                    now,
                );
                assert(after.results.drop_last() =~= run.results);
                assert(results_recorded(stacks, cluster_name, ended, after.results)) by {
                    assert forall|i: int|
                        #![trigger after.results[i]]
                        0 <= i < after.results.len() implies {
                        &&& after.results[i].name == stacks[i].0
                        &&& after.results[i].success ==> is_recorded_applied(
                            ended,
                            cluster_name,
                            stacks[i],
                        )
                        &&& !after.results[i].success ==> is_recorded_failed(
                            ended,
                            cluster_name,
                            stacks[i],
                            after.results[i].error,
                        )
                    } by {
                        if i < k {
                            assert(after.results[i] == run.results[i]);
                            assert(stacks[i].0 != stacks[k].0);
                        }
                    }
                }
                if k + 1 < stacks.len() && outcome is Ok {
                    let digest = digest_of_stack(stacks[k + 1].1);
                    lemma_begun(ended, stacks[k + 1].0, cluster_name, digest, now);
                    assert(results_recorded(stacks, cluster_name, after.state, after.results)) by {
                        assert forall|i: int|
                            #![trigger after.results[i]]
                            0 <= i < after.results.len() implies {
                            &&& after.results[i].name == stacks[i].0
                            &&& after.results[i].success ==> is_recorded_applied(
                                after.state,
                                cluster_name,
                                stacks[i],
                            )
                            &&& !after.results[i].success ==> is_recorded_failed(
                                after.state,
                                cluster_name,
                                stacks[i],
                                after.results[i].error,
                            )
                        } by {
                            assert(stacks[i].0 != stacks[k + 1].0);
                        }
                    }
                    assert forall|i: int| 0 <= i < after.results.len() implies (
                    #[trigger] after.results[i]).success by {
                        if i < k {
                            assert(after.results[i] == run.results[i]);
                        }
                    }
                } else {
                    assert forall|i: int| 0 <= i < after.results.len() - 1 implies (
                    #[trigger] after.results[i]).success by {
                        assert(after.results[i] == run.results[i]);
                    }
                }
            }
        },
        _ => {},
    }
}

proof fn lemma_first_failure(cluster: Seq<char>, results: Seq<ResultView>, i: int)
    requires
        0 <= i <= results.len(),
    ensures
        match apply_failure(cluster, results, i) {
            Some(error) => exists|k: int|
                i <= k < results.len() && !(#[trigger] results[k]).success && error
                    == (ErrorView::Command {
                    program: "stack apply "@ + results[k].name + " -> "@ + cluster,
                    message: match results[k].error {
                        Some(message) => message,
                        None => "stack step failed"@,
                    },
                }) && forall|m: int| i <= m < k ==> (#[trigger] results[m]).success,
            None => forall|k: int| i <= k < results.len() ==> (#[trigger] results[k]).success,
        },
    decreases results.len() - i,
{
    if i < results.len() {
        lemma_first_failure(cluster, results, i + 1);
    }
}

/// When the state of an apply was written, the apply shows every stack as
/// applied, and each is recorded as applied with the digest of its definition;
/// or it fails with the stack that failed, the cluster, and what went wrong.
pub proof fn law_apply_ends_as_recorded(
    config: ForgeConfig,
    format: OutputFormat,
    cluster_name: Seq<char>,
    filter: Option<Seq<char>>,
    run: RunView,
    now: u64,
)
    requires
        selection(config, cluster_name, filter) is Ok,
        run.phase == RunPhase::Saving,
        apply_recorded(selection(config, cluster_name, filter)->Ok_0.1, cluster_name, run),
    ensures
        ({
            let stacks = selection(config, cluster_name, filter)->Ok_0.1;
            let (after, action) = apply_step(
                config,
                format,
                cluster_name,
                filter,
                run,
                EventView::Saved,
                now,
            );
            &&& after.state == run.state
            &&& match action {
                ActionView::Show(shown) => {
                    &&& run.results.len() == stacks.len()
                    &&& forall|i: int|
                        0 <= i < stacks.len() ==> #[trigger] is_recorded_applied(
                            run.state,
                            cluster_name,
                            stacks[i],
                        )
                    &&& shown == apply_shown(format, cluster_name, run.results)
                },
                ActionView::Fail(error) => {
                    let k = run.results.len() - 1;
                    &&& k >= 0
                    &&& !run.results[k].success
                    &&& is_recorded_failed(
                        run.state,
                        cluster_name,
                        stacks[k],
                        run.results[k].error,
                    )
                    &&& error == (ErrorView::Command {
                        program: "stack apply "@ + stacks[k].0 + " -> "@ + cluster_name,
                        message: match run.results[k].error {
                            Some(message) => message,
                            None => "stack step failed"@,
                        },
                    })
                },
                _ => false,
            }
        }),
{
    let stacks = selection(config, cluster_name, filter)->Ok_0.1;
    lemma_first_failure(cluster_name, run.results, 0);
    match apply_failure(cluster_name, run.results, 0) {
        Some(error) => {
            let k = choose|k: int|
                0 <= k < run.results.len() && !(#[trigger] run.results[k]).success && error
                    == (ErrorView::Command {
                    program: "stack apply "@ + run.results[k].name + " -> "@ + cluster_name,
                    message: match run.results[k].error {
                        Some(message) => message,
                        None => "stack step failed"@,
                    },
                }) && forall|m: int| 0 <= m < k ==> (#[trigger] run.results[m]).success;
            assert(k == run.results.len() - 1);
        },
        None => {
            if run.results.len() > 0 {
                assert(run.results.last().success);
            }
            assert forall|i: int| 0 <= i < stacks.len() implies #[trigger] is_recorded_applied(
                run.state,
                cluster_name,
                stacks[i],
            ) by {
                assert(run.results[i].success);
            }
        },
    }
}

/// An apply takes the lock before it reads the state, and begins with the first
/// stack; without stacks it writes the state at once.
pub proof fn law_applies_begin(
    config: ForgeConfig,
    format: OutputFormat,
    cluster_name: Seq<char>,
    filter: Option<Seq<char>>,
    run: RunView,
    st: StateView,
    outcome: Result<OutcomeView, ErrorView>,
    now: u64,
)
    requires
        selection(config, cluster_name, filter) is Ok,
    ensures
        ({
            let stacks = selection(config, cluster_name, filter)->Ok_0.1;
            let begun = apply_step(config, format, cluster_name, filter, run, EventView::Begin, now);
            let held = apply_step(config, format, cluster_name, filter, run, EventView::Locked, now);
            let read = apply_step(
                config,
                format,
                cluster_name,
                filter,
                run,
                EventView::Loaded(st),
                now,
            );
            let told = apply_step(
                config,
                format,
                cluster_name,
                filter,
                run,
                EventView::Applied(outcome),
                now,
            );
            &&& run.phase == RunPhase::Start ==> begun.1 is Lock && begun.0.phase
                == RunPhase::Locking
            &&& run.phase == RunPhase::Locking ==> held.1 is Load && held.0.phase
                == RunPhase::Loading
            &&& run.phase == RunPhase::Loading ==> {
                &&& read.0.results.len() == 0
                &&& stacks.len() > 0 ==> read.1 is Apply
                &&& stacks.len() == 0 ==> read.1 is Save && read.0.state == st
            }
            &&& run.phase == RunPhase::Applying && run.results.len() < stacks.len() ==> {
                &&& outcome is Ok && run.results.len() + 1 < stacks.len() ==> told.1 is Apply
                &&& outcome is Ok && run.results.len() + 1 == stacks.len() ==> told.1 is Save
                &&& outcome is Err ==> told.1 is Save
            }
        }),
{
}

/// Where a cluster or a stack is not configured, planning and applying fail with
/// what is missing, whatever happens, and change nothing.
pub proof fn law_unknown_names_fail(
    config: ForgeConfig,
    format: OutputFormat,
    cluster_name: Seq<char>,
    filter: Option<Seq<char>>,
    run: RunView,
    event: EventView,
    now: u64,
)
    requires
        selection(config, cluster_name, filter) is Err,
    ensures
        ({
            let error = selection(config, cluster_name, filter)->Err_0;
            let planned = plan_step(config, format, cluster_name, filter, run, event);
            let applied = apply_step(config, format, cluster_name, filter, run, event, now);
            &&& planned.1 == ActionView::Fail(error) && planned.0.state == run.state
            &&& applied.1 == ActionView::Fail(error) && applied.0.state == run.state
        }),
{
}

// ---------------------------------------------------------------
// Outcomes
// ---------------------------------------------------------------

/// What the state says of a captured value of a cluster.
pub open spec fn captured_value(
    captures: Seq<(Seq<char>, CapturedView)>,
    cluster: Seq<char>,
    key: Seq<char>,
) -> Option<Seq<char>> {
    match value_of(captures, cluster) {
        Some(values) => value_of(values, key),
        None => None,
    }
}

/// True when the captured values are kept as maps: by cluster, and for each
/// cluster by key.
pub open spec fn captures_are_maps(captures: Seq<(Seq<char>, CapturedView)>) -> bool {
    &&& keys_ascend(captures)
    &&& forall|i: int| 0 <= i < captures.len() ==> keys_ascend((#[trigger] captures[i]).1)
}

proof fn lemma_value_is_map(captures: Seq<(Seq<char>, CapturedView)>, cluster: Seq<char>)
    requires
        captures_are_maps(captures),
    ensures
        value_of(captures, cluster) matches Some(values) ==> keys_ascend(values),
    decreases captures.len(),
{
    if captures.len() > 0 && captures[0].0 != cluster {
        let rest = captures.drop_first();
        assert forall|i: int, j: int| 0 <= i < j < rest.len() implies crate::strmap::precedes(
            (#[trigger] rest[i]).0,
            (#[trigger] rest[j]).0,
        ) by {
            assert(rest[i] == captures[i + 1] && rest[j] == captures[j + 1]);
        }
        assert forall|i: int| 0 <= i < rest.len() implies keys_ascend((#[trigger] rest[i]).1) by {
            assert(rest[i] == captures[i + 1]);
        }
        lemma_value_is_map(rest, cluster);
    }
}

/// When a stack was applied, the values that it captured are recorded for the
/// cluster, beside those that were; the other clusters keep theirs. An address
/// range that it allocated is recorded for the cluster, and only such a range
/// changes what is recorded of the network. Nothing else is changed but the
/// entry of the stack. A failed attempt changes that entry alone.
pub proof fn law_outcomes_are_recorded(
    st: StateView,
    env: Seq<char>,
    name: Seq<char>,
    cluster: Seq<char>,
    digest: Option<Seq<char>>,
    outcome: Result<OutcomeView, ErrorView>,
    now: u64,
    elsewhere: Seq<char>,
    key: Seq<char>,
)
    requires
        captures_are_maps(st.captures),
        outcome matches Ok(o) ==> keys_ascend(o.captures),
    ensures
        ({
            let after = ended_state(st, env, name, cluster, digest, outcome, now);
            &&& after.runtime == st.runtime
            &&& after.clusters == st.clusters
            &&& after.services == st.services
            &&& after.config_digest == st.config_digest
            &&& after.last_operation == st.last_operation
            &&& match outcome {
                Ok(o) => {
                    &&& captured_value(after.captures, cluster, key) == match value_of(
                        o.captures,
                        key,
                    ) {
                        Some(value) => Some(value),
                        None => captured_value(st.captures, cluster, key),
                    }
                    &&& elsewhere != cluster ==> captured_value(after.captures, elsewhere, key)
                        == captured_value(st.captures, elsewhere, key)
                    &&& match o.pool_allocation {
                        Some(alloc) => {
                            &&& after.network is Some
                            &&& after.network->0.cidr == Some(alloc.cidr)
                            &&& exists|i: int|
                                0 <= i < after.network->0.pools.len() && (
                                #[trigger] after.network->0.pools[i]).cluster == cluster
                                    && after.network->0.pools[i].range == alloc.range
                            &&& after.network->0.name == match st.network {
                                Some(net) => net.name,
                                None => env + "-net"@,
                            }
                            &&& after.network->0.phase == match st.network {
                                Some(net) => net.phase,
                                None => NetworkPhase::Active,
                            }
                        },
                        None => after.network == st.network,
                    }
                },
                Err(_) => after.network == st.network && after.captures == st.captures,
            }
        }),
{
    if let Ok(o) = outcome {
        lemma_value_is_map(st.captures, cluster);
        let values = match value_of(st.captures, cluster) {
            Some(v) => v,
            None => Seq::empty(),
        };
        law_captures_are_merged(values, o.captures, key);
        let merged = crate::stack::records::merged(values, o.captures, o.captures.len() as int);
        crate::strmap::lemma_with_entry(st.captures, cluster, merged);
        if let Some(alloc) = o.pool_allocation {
            let name = crate::naming::network_name_of(env);
            law_allocation_is_recorded(st.network, name, cluster, alloc);
            let net = crate::stack::records::with_allocation(st.network, name, cluster, alloc);
            lemma_pool(net.pools, cluster, 0);
            let i = pool_position(net.pools, cluster, 0)->0;
            assert(net.pools[i].cluster == cluster);
        }
    }
}

/// An address range that is allocated for a cluster leaves the ranges of the
/// other clusters as they were, if they belong to the same address range of the
/// network; otherwise none of them is left.
pub proof fn law_allocations_keep_other_clusters(
    network: crate::state::NetworkView,
    name: Seq<char>,
    cluster: Seq<char>,
    alloc: crate::stack::records::AllocationView,
    elsewhere: Seq<char>,
)
    requires
        elsewhere != cluster,
    ensures
        crate::state::pool_range(
            Some(crate::stack::records::with_allocation(Some(network), name, cluster, alloc)),
            elsewhere,
        ) == if network.cidr == Some(alloc.cidr) {
            crate::state::pool_range(Some(network), elsewhere)
        } else {
            None
        },
{
    let after = crate::stack::records::with_allocation(Some(network), name, cluster, alloc);
    let kept = if network.cidr == Some(alloc.cidr) {
        network.pools
    } else {
        Seq::empty()
    };
    lemma_pool(kept, cluster, 0);
    lemma_pool(kept, elsewhere, 0);
    lemma_pool(after.pools, elsewhere, 0);
    let old_at = pool_position(kept, elsewhere, 0);
    let new_at = pool_position(after.pools, elsewhere, 0);
    if let Some(k) = old_at {
        assert(after.pools[k] == kept[k]);
        let m = new_at->0;
        if m < k {
            if after.pools[m].cluster == elsewhere {
                assert(kept[m].cluster == elsewhere);
            }
        }
    }
    if let Some(m) = new_at {
        if m < kept.len() {
            assert(kept[m].cluster == elsewhere);
        } else {
            assert(after.pools[m].cluster == cluster);
        }
    }
}

// ---------------------------------------------------------------
// Status
// ---------------------------------------------------------------

/// True when an entry is of a cluster that is asked for.
pub open spec fn is_asked_for(entry: StackView, cluster: Option<Seq<char>>) -> bool {
    cluster matches Some(name) ==> entry.cluster == name
}

/// True when the positions of a list ascend and are those of the entries that
/// are asked for, among the first `n`.
pub open spec fn picks(
    at: Seq<int>,
    stacks: Seq<StackView>,
    cluster: Option<Seq<char>>,
    n: int,
) -> bool {
    &&& forall|i: int|
        0 <= i < at.len() ==> 0 <= #[trigger] at[i] < n && is_asked_for(stacks[at[i]], cluster)
    &&& forall|i: int, j: int| 0 <= i < j < at.len() ==> #[trigger] at[i] < #[trigger] at[j]
    &&& forall|k: int| #![trigger stacks[k]]
        0 <= k < n && is_asked_for(stacks[k], cluster) ==> at.contains(k)
}

proof fn lemma_selected(stacks: Seq<StackView>, cluster: Option<Seq<char>>, n: int) -> (at: Seq<int>)
    requires
        0 <= n <= stacks.len(),
    ensures
        picks(at, stacks, cluster, n),
        selected_stacks(stacks, cluster, n).len() == at.len(),
        forall|i: int|
            0 <= i < at.len() ==> selected_stacks(stacks, cluster, n)[i] == stacks[#[trigger] at[i]],
    decreases n,
{
    if n <= 0 {
        Seq::empty()
    } else {
        let before = lemma_selected(stacks, cluster, n - 1);
        if is_asked_for(stacks[n - 1], cluster) {
            let at = before.push(n - 1);
            assert forall|k: int| #![trigger stacks[k]]
                0 <= k < n && is_asked_for(stacks[k], cluster) implies at.contains(k) by {
                if k < n - 1 {
                    assert(before.contains(k));
                    let i = choose|i: int| 0 <= i < before.len() && before[i] == k;
                    assert(at[i] == k);
                } else {
                    assert(at[before.len() as int] == k);
                }
            }
            at
        } else {
            before
        }
    }
}

/// The status lists every recorded stack of the clusters that are asked for, in
/// the order of the state, and no other; beside each it says whether the
/// configured definition has drifted from the recorded one.
pub proof fn law_status_lists_what_is_recorded(
    config: ForgeConfig,
    st: StateView,
    cluster: Option<Seq<char>>,
) -> (at: Seq<int>)
    ensures
        picks(at, st.stacks, cluster, st.stacks.len() as int),
        status_rows(config, st, cluster).len() == at.len(),
        forall|i: int|
            #![trigger at[i]]
            0 <= i < at.len() ==> {
                &&& status_rows(config, st, cluster)[i].entry == st.stacks[at[i]]
                &&& status_rows(config, st, cluster)[i].drifted == drift_of(
                    config.spec.stacks@,
                    st.stacks[at[i]],
                )
            },
        cluster is None ==> at == Seq::new(st.stacks.len(), |i: int| i),
{
    let at = lemma_selected(st.stacks, cluster, st.stacks.len() as int);
    if cluster is None {
        lemma_ascending_all(at, st.stacks.len() as int, at.len() as int);
        assert(at =~= Seq::new(st.stacks.len(), |i: int| i)) by {
            assert forall|k: int| 0 <= k < st.stacks.len() implies at.contains(k) by {
                assert(is_asked_for(st.stacks[k], cluster));
            }
            lemma_covering(at, st.stacks.len() as int);
        }
    }
    at
}

/// The member at position `i` of an ascending list of naturals is at least `i`.
proof fn lemma_ascending_all(at: Seq<int>, n: int, m: int)
    requires
        0 <= m <= at.len(),
        forall|i: int| 0 <= i < at.len() ==> 0 <= #[trigger] at[i] < n,
        forall|i: int, j: int| 0 <= i < j < at.len() ==> #[trigger] at[i] < #[trigger] at[j],
    ensures
        forall|i: int| 0 <= i < m ==> i <= #[trigger] at[i],
    decreases m,
{
    if m > 0 {
        lemma_ascending_all(at, n, m - 1);
        if m > 1 {
            assert(at[m - 2] < at[m - 1]);
        }
    }
}

/// An ascending list that holds every number below `n`, and no other, counts
/// them.
proof fn lemma_covering(at: Seq<int>, n: int)
    requires
        0 <= n,
        forall|i: int| 0 <= i < at.len() ==> 0 <= #[trigger] at[i] < n,
        forall|i: int, j: int| 0 <= i < j < at.len() ==> #[trigger] at[i] < #[trigger] at[j],
        forall|k: int| 0 <= k < n ==> at.contains(k),
    ensures
        at.len() == n,
        forall|i: int| 0 <= i < n ==> #[trigger] at[i] == i,
    decreases n,
{
    if n == 0 {
        if at.len() > 0 {
            assert(0 <= at[0] < n);
        }
    } else {
        assert(at.contains(n - 1));
        let last = choose|i: int| 0 <= i < at.len() && at[i] == n - 1;
        if last < at.len() - 1 {
            assert(at[last] < at[at.len() - 1]);
        }
        let rest = at.drop_last();
        assert forall|k: int| 0 <= k < n - 1 implies rest.contains(k) by {
            assert(at.contains(k));
            let i = choose|i: int| 0 <= i < at.len() && at[i] == k;
            assert(rest[i] == k);
        }
        lemma_covering(rest, n - 1);
        assert forall|i: int| 0 <= i < n implies #[trigger] at[i] == i by {
            if i < n - 1 {
                assert(rest[i] == i);
            }
        }
    }
}

/// Whether a stack has drifted is known exactly when its digest is recorded and a
/// stack of its name is configured, with a text that can be digested.
pub proof fn law_drift_needs_a_record(stacks: Entries, entry: StackView)
    ensures
        entry.digest is None ==> drift_of(stacks, entry) is None,
        is_unknown(stacks, entry.name) ==> drift_of(stacks, entry) is None,
        entry.digest is Some && (forall|i: int|
            0 <= i < stacks.len() && (#[trigger] stacks[i]).0 == entry.name ==> byte_len(
                compact(stack_json(stacks[i].1)),
            ) < 0x2000_0000_0000_0000) && !is_unknown(stacks, entry.name) ==> drift_of(stacks, entry)
            is Some,
{
    lemma_value_of(stacks, entry.name);
    if let Some(spec) = value_of(stacks, entry.name) {
        let i = choose|i: int|
            0 <= i < stacks.len() && (#[trigger] stacks[i]).0 == entry.name && stacks[i].1 == spec;
        assert(stacks[i].0 == entry.name);
    }
}

/// The digest of a stack is the SHA-256 of its compact JSON text, in hexadecimal.
pub proof fn law_stacks_are_digested_as_json(spec: StackSpec)
    requires
        byte_len(compact(stack_json(spec))) < 0x2000_0000_0000_0000,
    ensures
        digest_of_stack(spec) == Some(hex(sha256(encode_utf8(compact(stack_json(spec)))))),
{
}

/// A stack that was recorded with the digest of a definition has drifted as soon
/// as the configured definition differs from it in any field of any step or in
/// the description, unless SHA-256 takes the texts of both to the same digest;
/// and it has not drifted as long as the two agree.
pub proof fn law_changed_stacks_drift(
    stacks: Entries,
    entry: StackView,
    applied: StackSpec,
    k: int,
)
    requires
        keys_ascend(stacks),
        0 <= k < stacks.len(),
        stacks[k].0 == entry.name,
        stack_is_plain(applied),
        stack_is_plain(stacks[k].1),
        byte_len(compact(stack_json(applied))) < 0x2000_0000_0000_0000,
        byte_len(compact(stack_json(stacks[k].1))) < 0x2000_0000_0000_0000,
        entry.digest == digest_of_stack(applied),
    ensures
        same_stack(applied, stacks[k].1) ==> drift_of(stacks, entry) == Some(false),
        !same_stack(applied, stacks[k].1) ==> drift_of(stacks, entry) == Some(true) || collide(
            encode_utf8(compact(stack_json(applied))),
            encode_utf8(compact(stack_json(stacks[k].1))),
        ),
{
    lemma_value_of(stacks, entry.name);
    let spec = value_of(stacks, entry.name)->0;
    assert(stacks[k].0 == entry.name);
    let i = choose|i: int|
        0 <= i < stacks.len() && (#[trigger] stacks[i]).0 == entry.name && stacks[i].1 == spec;
    if i != k {
        lemma_precedes_irreflexive(entry.name);
        if i < k {
            assert(crate::strmap::precedes(stacks[i].0, stacks[k].0));
        } else {
            assert(crate::strmap::precedes(stacks[k].0, stacks[i].0));
        }
    }
    law_stack_text_determines_the_stack(applied, spec);
    if drift_of(stacks, entry) == Some(false) {
        law_digests_tell_texts_apart(compact(stack_json(applied)), compact(stack_json(spec)));
    }
}

/// Asked for the status, a command reads the state and shows what it records.
pub proof fn law_status_is_shown(
    config: ForgeConfig,
    format: OutputFormat,
    cluster: Option<Seq<char>>,
    run: RunView,
    st: StateView,
    error: ErrorView,
)
    ensures
        run.phase == RunPhase::Start ==> status_step(config, format, cluster, run, EventView::Begin).1
            is Load && status_step(config, format, cluster, run, EventView::Begin).0.phase
            == RunPhase::Loading,
        run.phase == RunPhase::Loading ==> status_step(
            config,
            format,
            cluster,
            run,
            EventView::Loaded(st),
        ).1 == ActionView::Show(status_shown(format, status_rows(config, st, cluster))),
        status_step(config, format, cluster, run, EventView::Failed(error)).1 == ActionView::Fail(
            error,
        ),
{
}

// ---------------------------------------------------------------
// Commands
// ---------------------------------------------------------------

/// Which command is asked for decides what is done: the list is shown at once,
/// whatever happens; an apply in a dry run is the plan of that apply.
pub proof fn law_commands_do_what_they_are_asked_for(
    ctx: ForgeContext,
    cluster: String,
    stack: Option<String>,
    shown: Option<String>,
    run: RunView,
    event: EventView,
    now: u64,
)
    ensures
        stack_step(ctx, StackCommand::List, run, event, now).1 == ActionView::Show(
            list_shown(*ctx.config, ctx.format),
        ),
        stack_step(ctx, StackCommand::List, run, event, now).0.state == run.state,
        ctx.dry_run ==> stack_step(ctx, StackCommand::Apply { cluster, stack }, run, event, now)
            == stack_step(ctx, StackCommand::Plan { cluster, stack }, run, event, now),
        stack_step(ctx, StackCommand::Plan { cluster, stack }, run, event, now) == plan_step(
            *ctx.config,
            ctx.format,
            cluster@,
            opt_text(stack),
            run,
            event,
        ),
        !ctx.dry_run ==> stack_step(ctx, StackCommand::Apply { cluster, stack }, run, event, now)
            == apply_step(*ctx.config, ctx.format, cluster@, opt_text(stack), run, event, now),
        stack_step(ctx, StackCommand::Status { cluster: shown }, run, event, now) == status_step(
            *ctx.config,
            ctx.format,
            opt_text(shown),
            run,
            event,
        ),
{
}

/// What the state says of a stack on a cluster is the first entry of that stack and
/// that cluster.
pub proof fn law_entries_are_of_the_stack_and_the_cluster(
    st: StateView,
    name: Seq<char>,
    cluster: Seq<char>,
)
    ensures
        match entry_of(st, name, cluster) {
            Some(entry) => exists|i: int|
                0 <= i < st.stacks.len() && entry == #[trigger] st.stacks[i] && entry.name == name
                    && entry.cluster == cluster && forall|j: int|
                    0 <= j < i ==> !((#[trigger] st.stacks[j]).name == name && st.stacks[j].cluster
                        == cluster),
            None => forall|i: int|
                0 <= i < st.stacks.len() ==> !((#[trigger] st.stacks[i]).name == name
                    && st.stacks[i].cluster == cluster),
        },
{
    lemma_entry(st.stacks, name, cluster, 0);
}

proof fn lemma_entry(stacks: Seq<StackView>, name: Seq<char>, cluster: Seq<char>, i: int)
    requires
        0 <= i,
    ensures
        match stack_position(stacks, name, cluster, i) {
            Some(k) => i <= k < stacks.len() && stacks[k].name == name && stacks[k].cluster
                == cluster && forall|m: int|
                i <= m < k ==> !((#[trigger] stacks[m]).name == name && stacks[m].cluster
                    == cluster),
            None => forall|m: int|
                i <= m < stacks.len() ==> !((#[trigger] stacks[m]).name == name
                    && stacks[m].cluster == cluster),
        },
    decreases stacks.len() - i,
{
    if i < stacks.len() {
        lemma_entry(stacks, name, cluster, i + 1);
    }
}

/// True when a command waits for an event at the point it has come to.
pub open spec fn is_awaited(
    applies: bool,
    stacks: Entries,
    run: RunView,
    event: EventView,
) -> bool {
    match event {
        EventView::Begin => run.phase == RunPhase::Start,
        EventView::Locked => applies && run.phase == RunPhase::Locking,
        EventView::Loaded(_) => run.phase == RunPhase::Loading,
        EventView::Planned(_) => !applies && run.phase == RunPhase::Planning && run.planned.len()
            < stacks.len(),
        EventView::Applied(_) => applies && run.phase == RunPhase::Applying && run.results.len()
            < stacks.len(),
        EventView::Saved => applies && run.phase == RunPhase::Saving,
        EventView::Failed(_) => true,
    }
}

/// An event that a plan or an apply does not wait for ends it with an error, and
/// the state stays as it is.
pub proof fn law_unexpected_events_end_the_command(
    config: ForgeConfig,
    format: OutputFormat,
    cluster_name: Seq<char>,
    filter: Option<Seq<char>>,
    run: RunView,
    event: EventView,
    now: u64,
)
    requires
        selection(config, cluster_name, filter) is Ok,
    ensures
        ({
            let stacks = selection(config, cluster_name, filter)->Ok_0.1;
            let ended = (
                RunView { phase: RunPhase::Ended, ..run },
                ActionView::Fail(ErrorView::State("stack command is out of step"@)),
            );
            &&& !is_awaited(false, stacks, run, event) ==> plan_step(
                config,
                format,
                cluster_name,
                filter,
                run,
                event,
            ) == ended
            &&& !is_awaited(true, stacks, run, event) ==> apply_step(
                config,
                format,
                cluster_name,
                filter,
                run,
                event,
                now,
            ) == ended
        }),
{
}

/// A command of which nothing was done is at its start, with an empty state, and
/// nothing planned or attempted.
pub proof fn law_new_commands_are_at_their_start(stacks: Entries, cluster: Seq<char>)
    ensures
        new_run().phase == RunPhase::Start,
        new_run().planned.len() == 0,
        new_run().results.len() == 0,
        new_run().state.stacks.len() == 0,
        planned_in_order(stacks, new_run()),
        apply_recorded(stacks, cluster, new_run()),
{
}

} // verus!
