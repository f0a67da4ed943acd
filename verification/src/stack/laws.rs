//! What holds of every stack command.

use vstd::prelude::*;
use crate::config::ForgeConfig;
use crate::context::{ForgeContext, OutputFormat};
use crate::error::{error_text, ErrorView};
use crate::stack::records::law_stack_entry_is_what_was_written;
use crate::stack::render::ResultView;
use crate::stack::{
    apply_failure, apply_is_over, apply_step, begin_state, ended_state, selection, stack_step,
    ActionView, Entries, EventView, OutcomeView, RunPhase, RunView, StackCommand,
};
use crate::text::opt_text;
use crate::state::{stack_position, StackPhase, StackView, StateView};

verus! {

/// True when an action changes nothing outside the run.
pub open spec fn is_harmless(action: ActionView) -> bool {
    action is Load || action is Plan || action is Show || action is Fail
}

/// Listing, planning and showing the status change nothing, and a dry run of
/// an apply changes nothing either: none of them ever locks or writes the
/// state or applies a stack.
pub proof fn law_only_a_real_apply_changes_anything(
    ctx: ForgeContext,
    cmd: StackCommand,
    run: RunView,
    event: EventView,
    now: u64,
)
    requires
        !(cmd is Apply) || ctx.dry_run,
    ensures
        is_harmless(stack_step(ctx, cmd, run, event, now).1),
{
}

/// True when at most the last stack failed.
pub open spec fn failed_at_most_last(results: Seq<ResultView>) -> bool {
    forall|i: int| 0 <= i < results.len() - 1 ==> (#[trigger] results[i]).success
}

/// True when an apply has a stack under way only while more are to be applied.
pub open spec fn apply_in_order(stacks: Entries, run: RunView) -> bool {
    &&& failed_at_most_last(run.results)
    &&& run.phase == RunPhase::Applying ==> !apply_is_over(stacks, run.results)
}

/// An apply stops after the first failed stack: at every point at most the
/// last of the attempted stacks failed, and a stack is begun only if none did.
pub proof fn law_apply_stops_after_the_first_failure(
    config: ForgeConfig,
    format: OutputFormat,
    cluster_name: Seq<char>,
    filter: Option<Seq<char>>,
    run: RunView,
    event: EventView,
    now: u64,
)
    requires
        selection(config, cluster_name, filter) is Ok,
        apply_in_order(selection(config, cluster_name, filter)->Ok_0.1, run),
    ensures
        ({
            let stacks = selection(config, cluster_name, filter)->Ok_0.1;
            let (after, action) = apply_step(
                config,
                format,
                cluster_name,
                filter,
                run,
                event,
                now,
            );
            &&& apply_in_order(stacks, after)
            &&& action matches ActionView::Apply { stack, .. } ==> {
                &&& after.results.len() < stacks.len()
                &&& stack == stacks[after.results.len() as int].0
                &&& forall|i: int| 0 <= i < after.results.len() ==> (
                #[trigger] after.results[i]).success
            }
        }),
{
    let stacks = selection(config, cluster_name, filter)->Ok_0.1;
    let (after, action) = apply_step(config, format, cluster_name, filter, run, event, now);
    if action is Apply {
        assert forall|i: int| 0 <= i < after.results.len() implies (
        #[trigger] after.results[i]).success by {
            if i == after.results.len() - 1 {
                assert(after.results.last().success);
            }
        }
    }
}

/// When a stack was applied, or failed to be, an apply goes on with the next
/// stack or writes the state: it never ends with what was attempted unwritten.
pub proof fn law_attempts_are_written(
    config: ForgeConfig,
    format: OutputFormat,
    cluster_name: Seq<char>,
    filter: Option<Seq<char>>,
    run: RunView,
    outcome: Result<OutcomeView, ErrorView>,
    now: u64,
)
    requires
        selection(config, cluster_name, filter) is Ok,
        apply_in_order(selection(config, cluster_name, filter)->Ok_0.1, run),
        run.phase == RunPhase::Applying,
    ensures
        ({
            let action = apply_step(
                config,
                format,
                cluster_name,
                filter,
                run,
                EventView::Applied(outcome),
                now,
            ).1;
            action is Apply || action is Save
        }),
{
}

proof fn lemma_apply_failure(cluster: Seq<char>, results: Seq<ResultView>, i: int)
    requires
        0 <= i <= results.len(),
    ensures
        apply_failure(cluster, results, i) is None <==> forall|k: int|
            i <= k < results.len() ==> (#[trigger] results[k]).success,
    decreases results.len() - i,
{
    if i < results.len() {
        lemma_apply_failure(cluster, results, i + 1);
    }
}

/// Once the state is written, an apply succeeds exactly when every attempted
/// stack did; otherwise it fails with a command error.
pub proof fn law_apply_succeeds_iff_every_stack_did(
    config: ForgeConfig,
    format: OutputFormat,
    cluster_name: Seq<char>,
    filter: Option<Seq<char>>,
    run: RunView,
    now: u64,
)
    requires
        selection(config, cluster_name, filter) is Ok,
        run.phase == RunPhase::Saving,
    ensures
        ({
            let action = apply_step(
                config,
                format,
                cluster_name,
                filter,
                run,
                EventView::Saved,
                now,
            ).1;
            let all = forall|k: int|
                0 <= k < run.results.len() ==> (#[trigger] run.results[k]).success;
            &&& action is Show <==> all
            &&& action matches ActionView::Fail(error) ==> error is Command
        }),
{
    lemma_apply_failure(cluster_name, run.results, 0);
    lemma_failure_is_command(cluster_name, run.results, 0);
}

proof fn lemma_failure_is_command(cluster: Seq<char>, results: Seq<ResultView>, i: int)
    requires
        0 <= i <= results.len(),
    ensures
        apply_failure(cluster, results, i) matches Some(error) ==> error is Command,
    decreases results.len() - i,
{
    if i < results.len() {
        lemma_failure_is_command(cluster, results, i + 1);
    }
}

/// What the state says of a stack on a cluster.
pub open spec fn entry_of(st: StateView, name: Seq<char>, cluster: Seq<char>) -> Option<StackView> {
    match stack_position(st.stacks, name, cluster, 0) {
        Some(i) => Some(st.stacks[i]),
        None => None,
    }
}

/// Beginning and ending to apply a stack writes the entry of that stack and no
/// other: a stack that was not attempted gains no entry.
pub proof fn law_only_the_attempted_stack_is_recorded(
    st: StateView,
    env: Seq<char>,
    name: Seq<char>,
    cluster: Seq<char>,
    digest: Option<Seq<char>>,
    outcome: Result<OutcomeView, ErrorView>,
    now: u64,
    other: Seq<char>,
    elsewhere: Seq<char>,
)
    ensures
        other != name || elsewhere != cluster ==> {
            &&& entry_of(begin_state(st, name, cluster, digest, now), other, elsewhere) == entry_of(
                st,
                other,
                elsewhere,
            )
            &&& entry_of(
                ended_state(st, env, name, cluster, digest, outcome, now),
                other,
                elsewhere,
            ) == entry_of(st, other, elsewhere)
        },
{
    let begun = StackView {
        name,
        cluster,
        phase: StackPhase::Applying,
        digest,
        timestamp: now,
        error: None,
    };
    law_stack_entry_is_what_was_written(st.stacks, begun, other, elsewhere);
    let applied = StackView { phase: StackPhase::Applied, ..begun };
    law_stack_entry_is_what_was_written(st.stacks, applied, other, elsewhere);
    if let Err(error) = outcome {
        let failed = StackView {
            phase: StackPhase::Failed,
            error: Some(error_text(error)),
            ..begun
        };
        law_stack_entry_is_what_was_written(st.stacks, failed, other, elsewhere);
    }
}

/// When applying a stack has ended, its entry says so: it is applied and
/// carries no error, or it failed and carries what went wrong. When applying
/// it begins, no error of an earlier attempt is left.
pub proof fn law_attempt_is_recorded(
    st: StateView,
    env: Seq<char>,
    name: Seq<char>,
    cluster: Seq<char>,
    digest: Option<Seq<char>>,
    outcome: Result<OutcomeView, ErrorView>,
    now: u64,
)
    ensures
        entry_of(begin_state(st, name, cluster, digest, now), name, cluster) matches Some(entry)
            && entry.phase == StackPhase::Applying && entry.error is None && entry.digest == digest,
        entry_of(
            ended_state(st, env, name, cluster, digest, outcome, now),
            name,
            cluster,
        ) matches Some(entry) && entry.digest == digest && match outcome {
            Ok(_) => entry.phase == StackPhase::Applied && entry.error is None,
            Err(error) => entry.phase == StackPhase::Failed && entry.error == Some(
                error_text(error),
            ),
        },
{
    let begun = StackView {
        name,
        cluster,
        phase: StackPhase::Applying,
        digest,
        timestamp: now,
        error: None,
    };
    law_stack_entry_is_what_was_written(st.stacks, begun, name, cluster);
    let applied = StackView { phase: StackPhase::Applied, ..begun };
    law_stack_entry_is_what_was_written(st.stacks, applied, name, cluster);
    if let Err(error) = outcome {
        let failed = StackView {
            phase: StackPhase::Failed,
            error: Some(error_text(error)),
            ..begun
        };
        law_stack_entry_is_what_was_written(st.stacks, failed, name, cluster);
    }
}

/// How far a command is from its end, given the number of stacks that it works
/// on: the part of the command, and the stacks that are left in it.
pub open spec fn distance(stacks: nat, run: RunView) -> (int, int) {
    match run.phase {
        RunPhase::Start => (5, 0),
        RunPhase::Locking => (4, 0),
        RunPhase::Loading => (3, 0),
        RunPhase::Planning => (2, stacks - run.planned.len()),
        RunPhase::Applying => (2, stacks - run.results.len()),
        RunPhase::Saving => (1, 0),
        RunPhase::Ended => (0, 0),
    }
}

/// The number of stacks that a command works on.
pub open spec fn stack_count(ctx: ForgeContext, cmd: StackCommand) -> nat {
    match cmd {
        StackCommand::Plan { cluster, stack } => match selection(
            *ctx.config,
            cluster@,
            opt_text(stack),
        ) {
            Ok((_, stacks)) => stacks.len(),
            Err(_) => 0,
        },
        StackCommand::Apply { cluster, stack } => match selection(
            *ctx.config,
            cluster@,
            opt_text(stack),
        ) {
            Ok((_, stacks)) => stacks.len(),
            Err(_) => 0,
        },
        _ => 0,
    }
}

/// Whatever happens, a command that has not ended comes closer to its end, by a
/// distance that never falls below zero: after finitely many events it has
/// ended.
pub proof fn law_every_event_brings_the_end_closer(
    ctx: ForgeContext,
    cmd: StackCommand,
    run: RunView,
    event: EventView,
    now: u64,
)
    requires
        run.phase != RunPhase::Ended,
    ensures
        ({
            let n = stack_count(ctx, cmd);
            let before = distance(n, run);
            let after = distance(n, stack_step(ctx, cmd, run, event, now).0);
            &&& after.0 < before.0 || (after.0 == before.0 && after.1 < before.1)
            &&& after.1 >= 0
        }),
{
}

} // verus!
