//! What the results of the stack commands tell.

use vstd::prelude::*;
use crate::config::{ForgeConfig, StackSpec, StepSpec};
use crate::context::{OutputFormat, ShownView};
use crate::json::laws::law_numerals_are_unique;
use crate::json::{compact, JsonView};
use crate::numeral::decimal;
use crate::stack::render::{
    applies_json, apply_json, apply_shown, description_of, list_entries, list_entry_json,
    list_lines, phase_word, plan_json, plan_lines, plan_shown, planned_step_json,
    planned_step_lines, planned_steps_json, plans_json, status_json, status_lines, statuses_json,
    warning_of, PlannedStep, PlannedView, ResultView, RowView,
};
use crate::stack::{list_shown, status_shown};
use crate::state::StackPhase;
use crate::text::opt_text;

verus! {

// ---------------------------------------------------------------
// Words
// ---------------------------------------------------------------

/// What a step does, in a few words: it names what the step works on.
pub proof fn law_descriptions_name_what_a_step_works_on(step: StepSpec)
    ensures
        description_of(step) == match step {
            StepSpec::Url { url, .. } => "download "@ + url@,
            StepSpec::Manifest { path } => "apply "@ + path@,
            StepSpec::Kustomize { path } => "kustomize "@ + path@,
            StepSpec::Helm { release, chart, .. } => "helm "@ + release@ + (" ("@ + chart@ + ")"@),
            StepSpec::Deployment { name, image, .. } => "deploy "@ + name@ + (" ("@ + image@
                + ")"@),
            StepSpec::Service { name, port, .. } => "service "@ + name@ + (":"@ + decimal(
                port as nat,
            )),
            StepSpec::Wait { resource, .. } => "wait "@ + resource@,
            StepSpec::Exec { command, .. } => "exec "@ + if command@.len() > 0 {
                command@[0]@
            } else {
                "<empty>"@
            },
            StepSpec::ForEach { property, steps } => "for-each "@ + property@ + (" ("@ + decimal(
                steps@.len(),
            ) + " steps)"@),
            StepSpec::MetallbAutoPool { name } => "metallb pool "@ + name@,
            StepSpec::CoreDnsForward { zone, .. } => "coredns forward "@ + zone@,
            StepSpec::Capture { key, resource, .. } => "capture "@ + key@ + (" from "@ + resource@),
            StepSpec::TemplateManifest { path } => "template-apply "@ + path@,
            StepSpec::TemplateFile { source, target } => "template-file "@ + source@ + (" -> "@
                + target@),
        },
        warning_of(step) is Some <==> step is Exec,
        warning_of(step) matches Some(text) ==> text
            == "exec is an explicit command escape hatch"@,
{
    match step {
        StepSpec::Helm { release, chart, .. } => {
            assert(description_of(step) =~= "helm "@ + release@ + (" ("@ + chart@ + ")"@));
        },
        StepSpec::Deployment { name, image, .. } => {
            assert(description_of(step) =~= "deploy "@ + name@ + (" ("@ + image@ + ")"@));
        },
        StepSpec::Service { name, port, .. } => {
            assert(description_of(step) =~= "service "@ + name@ + (":"@ + decimal(port as nat)));
        },
        StepSpec::Exec { command, .. } => {
            if command@.len() == 0 {
                reveal_strlit("exec <empty>");
                reveal_strlit("exec ");
                reveal_strlit("<empty>");
                assert(description_of(step) =~= "exec "@ + "<empty>"@);
            }
        },
        StepSpec::ForEach { property, steps } => {
            assert(description_of(step) =~= "for-each "@ + property@ + (" ("@ + decimal(
                steps@.len(),
            ) + " steps)"@));
        },
        StepSpec::Capture { key, resource, .. } => {
            assert(description_of(step) =~= "capture "@ + key@ + (" from "@ + resource@));
        },
        StepSpec::TemplateFile { source, target } => {
            assert(description_of(step) =~= "template-file "@ + source@ + (" -> "@ + target@));
        },
        _ => {},
    }
}

/// The type of a step is shown by the word under which it is configured.
pub proof fn law_types_are_shown_as_configured(step: StepSpec)
    ensures
        crate::config::document::step_type_word(step) == match step {
            StepSpec::Capture { .. } => "capture"@,
            StepSpec::CoreDnsForward { .. } => "core-dns-forward"@,
            StepSpec::Deployment { .. } => "deployment"@,
            StepSpec::Exec { .. } => "exec"@,
            StepSpec::ForEach { .. } => "for-each"@,
            StepSpec::Helm { .. } => "helm"@,
            StepSpec::Kustomize { .. } => "kustomize"@,
            StepSpec::Manifest { .. } => "manifest"@,
            StepSpec::MetallbAutoPool { .. } => "metallb-auto-pool"@,
            StepSpec::Service { .. } => "service"@,
            StepSpec::TemplateFile { .. } => "template-file"@,
            StepSpec::TemplateManifest { .. } => "template-manifest"@,
            StepSpec::Url { .. } => "url"@,
            StepSpec::Wait { .. } => "wait"@,
        },
{
}

/// A stack that is being applied, was applied or failed is shown as such.
pub proof fn law_phases_are_shown_as_recorded(phase: StackPhase)
    ensures
        phase == StackPhase::Applied <==> phase_word(phase) == "applied"@,
        phase == StackPhase::Applying <==> phase_word(phase) == "applying"@,
        phase == StackPhase::Failed <==> phase_word(phase) == "failed"@,
{
    if phase_word(phase) == "applied"@ {
        law_phase_words_are_unique(phase, StackPhase::Applied);
    }
    if phase_word(phase) == "applying"@ {
        law_phase_words_are_unique(phase, StackPhase::Applying);
    }
    if phase_word(phase) == "failed"@ {
        law_phase_words_are_unique(phase, StackPhase::Failed);
    }
}

/// Different phases of a stack have different words.
pub proof fn law_phase_words_are_unique(a: StackPhase, b: StackPhase)
    requires
        phase_word(a) == phase_word(b),
    ensures
        a == b,
{
    reveal_strlit("applying");
    reveal_strlit("applied");
    reveal_strlit("failed");
    assert("applying"@.len() == 8 && "applied"@.len() == 7 && "failed"@.len() == 6);
    assert(phase_word(a).len() == phase_word(b).len());
}

// ---------------------------------------------------------------
// Lists
// ---------------------------------------------------------------

/// As text, the list of stacks counts them and then has a line for each, in their
/// order, with its name and the number of its steps.
pub proof fn law_every_stack_is_listed(config: ForgeConfig)
    ensures
        ({
            let stacks = config.spec.stacks@;
            let shown = list_shown(config, OutputFormat::Text);
            &&& shown is Lines
            &&& (shown->Lines_0).len() == stacks.len() + 1
            &&& (shown->Lines_0)[0] == "Stacks: "@ + decimal(stacks.len())
            &&& forall|i: int|
                #![trigger stacks[i]]
                0 <= i < stacks.len() ==> (shown->Lines_0)[1 + i] == "  - "@ + stacks[i].0 + (" ("@
                    + decimal(stacks[i].1.steps@.len()) + " steps)"@)
        }),
{
    let stacks = config.spec.stacks@;
    let lines = list_lines(stacks);
    assert forall|i: int| #![trigger stacks[i]] 0 <= i < stacks.len() implies lines[1 + i] == "  - "@
        + stacks[i].0 + (" ("@ + decimal(stacks[i].1.steps@.len()) + " steps)"@) by {
        assert(lines[1 + i] =~= "  - "@ + stacks[i].0 + (" ("@ + decimal(stacks[i].1.steps@.len())
            + " steps)"@));
    }
}

/// The data of a document that reports success.
pub open spec fn data_of(shown: ShownView) -> Seq<(Seq<char>, JsonView)> {
    ((shown->Document_0)->Object_0[0].1)->Object_0
}

/// True when a document reports success.
pub open spec fn reports_success(shown: ShownView) -> bool {
    &&& shown is Document
    &&& (shown->Document_0) is Object
    &&& ((shown->Document_0)->Object_0).len() == 2
    &&& (shown->Document_0)->Object_0[0].0 == "data"@
    &&& (shown->Document_0)->Object_0[0].1 is Object
    &&& (shown->Document_0)->Object_0[1] == ("ok"@, JsonView::Bool(true))
}

/// As a document, the list of stacks tells the name, the description and the
/// number of steps of each stack, in their order.
pub proof fn law_the_list_tells_every_stack(config: ForgeConfig, other: ForgeConfig)
    ensures
        reports_success(list_shown(config, OutputFormat::Json)),
        list_shown(config, OutputFormat::Json) == list_shown(other, OutputFormat::Json) ==> {
            let a = config.spec.stacks@;
            let b = other.spec.stacks@;
            &&& a.len() == b.len()
            &&& forall|i: int|
                0 <= i < a.len() ==> (#[trigger] a[i]).0 == b[i].0 && opt_text(a[i].1.description)
                    == opt_text(b[i].1.description) && a[i].1.steps@.len() == b[i].1.steps@.len()
        },
{
    let a = config.spec.stacks@;
    let b = other.spec.stacks@;
    let shown = list_shown(config, OutputFormat::Json);
    let again = list_shown(other, OutputFormat::Json);
    if shown == again {
        assert(data_of(shown)[0].1 == data_of(again)[0].1);
        assert(list_entries(a) == list_entries(b));
        assert(list_entries(a).len() == a.len() && list_entries(b).len() == b.len());
        assert forall|i: int| 0 <= i < a.len() implies (#[trigger] a[i]).0 == b[i].0 && opt_text(
            a[i].1.description,
        ) == opt_text(b[i].1.description) && a[i].1.steps@.len() == b[i].1.steps@.len() by {
            assert(list_entries(a)[i] == list_entries(b)[i]);
            let x = list_entries(a)[i]->Object_0;
            let y = list_entries(b)[i]->Object_0;
            assert(x[0].1 == y[0].1 && x[1].1 == y[1].1 && x[2].1 == y[2].1);
            law_numerals_are_unique(a[i].1.steps@.len(), b[i].1.steps@.len());
        }
    }
}

// ---------------------------------------------------------------
// Plans
// ---------------------------------------------------------------

/// The line for a planned step: its number, its type, what it does and the item
/// that it was repeated for, if it was.
pub open spec fn step_text(planned: PlannedStep, number: nat) -> Seq<char> {
    let item = match planned.item {
        Some(value) => " (item "@ + compact(value@) + ")"@,
        None => Seq::empty(),
    };
    "  "@ + decimal(number) + ". ["@ + (crate::config::document::step_type_word(planned.step)
        + "] "@ + description_of(planned.step)) + item
}

/// As text, a plan has a line for each stack with its name and the cluster, and
/// below it a line for each of its steps, numbered from one; a step that runs a
/// command is followed by a warning.
pub proof fn law_every_planned_step_has_a_line(
    cluster: Seq<char>,
    planned: Seq<PlannedView>,
    steps: Seq<PlannedStep>,
    n: int,
)
    ensures
        plan_shown(OutputFormat::Text, cluster, planned) == ShownView::Lines(
            plan_lines(cluster, planned, planned.len() as int),
        ),
        plan_lines(cluster, planned, 0).len() == 0,
        0 < n <= planned.len() ==> plan_lines(cluster, planned, n) == plan_lines(
            cluster,
            planned,
            n - 1,
        ) + seq!["Stack: "@ + planned[n - 1].name + (" -> "@ + cluster)] + planned_step_lines(
            planned[n - 1].steps,
            planned[n - 1].steps.len() as int,
        ),
        planned_step_lines(steps, 0).len() == 0,
        0 < n <= steps.len() ==> planned_step_lines(steps, n) == planned_step_lines(steps, n - 1)
            + seq![step_text(steps[n - 1], n as nat)] + (if steps[n - 1].step is Exec {
            seq!["     WARNING: "@ + "exec is an explicit command escape hatch"@]
        } else {
            Seq::empty()
        }),
{
    if 0 < n <= planned.len() {
        assert("Stack: "@ + planned[n - 1].name + " -> "@ + cluster =~= "Stack: "@ + planned[n
            - 1].name + (" -> "@ + cluster));
        assert(plan_lines(cluster, planned, n) =~= plan_lines(cluster, planned, n - 1) + seq![
            "Stack: "@ + planned[n - 1].name + (" -> "@ + cluster),
        ] + planned_step_lines(planned[n - 1].steps, planned[n - 1].steps.len() as int));
    }
    if 0 < n <= steps.len() {
        let line = crate::stack::render::planned_step_line(steps[n - 1], n as nat);
        assert(line =~= step_text(steps[n - 1], n as nat));
        assert(planned_step_lines(steps, n) =~= planned_step_lines(steps, n - 1) + seq![line] + (
        if steps[n - 1].step is Exec {
            seq!["     WARNING: "@ + "exec is an explicit command escape hatch"@]
        } else {
            Seq::empty()
        }));
    }
}

/// As a document, a plan tells the cluster, every stack by name, and of every step
/// its type, what it does, the item that it was repeated for and the warning on
/// it.
pub proof fn law_the_plan_tells_every_step(
    cluster: Seq<char>,
    planned: Seq<PlannedView>,
    k: int,
    i: int,
)
    ensures
        ({
            let shown = plan_shown(OutputFormat::Json, cluster, planned);
            &&& reports_success(shown)
            &&& data_of(shown).len() == 2
            &&& data_of(shown)[0] == ("cluster"@, JsonView::String(cluster))
            &&& data_of(shown)[1].0 == "stacks"@
            &&& data_of(shown)[1].1 is Array
            &&& (data_of(shown)[1].1->Array_0).len() == planned.len()
            &&& 0 <= k < planned.len() ==> {
                let entry = data_of(shown)[1].1->Array_0[k]->Object_0;
                &&& entry[0] == ("cluster"@, JsonView::String(cluster))
                &&& entry[1] == ("stack"@, JsonView::String(planned[k].name))
                &&& entry[2].0 == "steps"@
                &&& (entry[2].1->Array_0).len() == planned[k].steps.len()
                &&& 0 <= i < planned[k].steps.len() ==> {
                    let step = planned[k].steps[i];
                    let told = entry[2].1->Array_0[i]->Object_0;
                    &&& told[0] == ("description"@, JsonView::String(description_of(step.step)))
                    &&& told[1] == (
                        "item"@,
                        match step.item {
                            Some(value) => value@,
                            None => JsonView::Null,
                        },
                    )
                    &&& told[2] == (
                        "type"@,
                        JsonView::String(crate::config::document::step_type_word(step.step)),
                    )
                    &&& told[3] == (
                        "warning"@,
                        if step.step is Exec {
                            JsonView::String("exec is an explicit command escape hatch"@)
                        } else {
                            JsonView::Null
                        },
                    )
                }
            }
        }),
{
    let shown = plan_shown(OutputFormat::Json, cluster, planned);
    assert(data_of(shown)[1].1->Array_0 == plans_json(cluster, planned));
    if 0 <= k < planned.len() {
        assert(plans_json(cluster, planned)[k] == plan_json(cluster, planned[k]));
        if 0 <= i < planned[k].steps.len() {
            assert(planned_steps_json(planned[k].steps)[i] == planned_step_json(
                planned[k].steps[i],
            ));
        }
    }
}

// ---------------------------------------------------------------
// Results
// ---------------------------------------------------------------

/// As text, the result of an apply has a line for each attempted stack: whether it
/// was applied or failed, its name, the cluster and how many steps were executed.
pub proof fn law_every_applied_stack_has_a_line(cluster: Seq<char>, results: Seq<ResultView>)
    ensures
        ({
            let shown = apply_shown(OutputFormat::Text, cluster, results);
            &&& shown is Lines
            &&& (shown->Lines_0).len() == results.len()
            &&& forall|i: int|
                #![trigger results[i]]
                0 <= i < results.len() ==> (shown->Lines_0)[i] == (if results[i].success {
                    "applied stack "@
                } else {
                    "FAILED stack "@
                }) + results[i].name + (" -> "@ + cluster + (" ("@ + decimal(
                    results[i].steps_executed,
                ) + " steps)"@))
        }),
{
    let shown = apply_shown(OutputFormat::Text, cluster, results);
    reveal_strlit("applied");
    reveal_strlit("FAILED");
    reveal_strlit(" stack ");
    reveal_strlit("applied stack ");
    reveal_strlit("FAILED stack ");
    assert("applied"@ + " stack "@ =~= "applied stack "@);
    assert("FAILED"@ + " stack "@ =~= "FAILED stack "@);
    assert forall|i: int| #![trigger results[i]] 0 <= i < results.len() implies (shown->Lines_0)[i]
        == (if results[i].success {
        "applied stack "@
    } else {
        "FAILED stack "@
    }) + results[i].name + (" -> "@ + cluster + (" ("@ + decimal(results[i].steps_executed)
        + " steps)"@)) by {
        let rest = results[i].name + (" -> "@ + cluster + (" ("@ + decimal(
            results[i].steps_executed,
        ) + " steps)"@));
        let front = if results[i].success {
            "applied"@
        } else {
            "FAILED"@
        };
        assert((shown->Lines_0)[i] =~= front + " stack "@ + rest);
        assert(front + " stack "@ + rest =~= (if results[i].success {
            "applied stack "@
        } else {
            "FAILED stack "@
        }) + results[i].name + (" -> "@ + cluster + (" ("@ + decimal(results[i].steps_executed)
            + " steps)"@)));
    }
}

/// As a document, the result of an apply tells the cluster and everything of each
/// attempted stack: two results that differ have different documents.
pub proof fn law_the_result_tells_every_stack(
    cluster: Seq<char>,
    results: Seq<ResultView>,
    cluster2: Seq<char>,
    results2: Seq<ResultView>,
)
    ensures
        reports_success(apply_shown(OutputFormat::Json, cluster, results)),
        apply_shown(OutputFormat::Json, cluster, results) == apply_shown(
            OutputFormat::Json,
            cluster2,
            results2,
        ) ==> cluster == cluster2 && results == results2,
{
    let shown = apply_shown(OutputFormat::Json, cluster, results);
    let again = apply_shown(OutputFormat::Json, cluster2, results2);
    if shown == again {
        assert(data_of(shown)[0].1 == data_of(again)[0].1);
        assert(data_of(shown)[1].1 == data_of(again)[1].1);
        assert(applies_json(results) == applies_json(results2));
        assert(applies_json(results).len() == results.len());
        assert(applies_json(results2).len() == results2.len());
        assert forall|i: int| 0 <= i < results.len() implies results[i] == results2[i] by {
            assert(applies_json(results)[i] == applies_json(results2)[i]);
            let x = apply_json(results[i])->Object_0;
            let y = apply_json(results2[i])->Object_0;
            assert(x[0].1 == y[0].1 && x[1].1 == y[1].1 && x[2].1 == y[2].1 && x[3].1 == y[3].1);
            law_numerals_are_unique(results[i].steps_executed, results2[i].steps_executed);
        }
        assert(results =~= results2);
    }
}

// ---------------------------------------------------------------
// Status
// ---------------------------------------------------------------

/// As text, the status counts the recorded stacks and then has a line for each
/// with the cluster, the name and the phase; one that has drifted is marked.
pub proof fn law_every_recorded_stack_has_a_line(rows: Seq<RowView>)
    ensures
        ({
            let shown = status_shown(OutputFormat::Text, rows);
            &&& shown is Lines
            &&& (shown->Lines_0).len() == rows.len() + 1
            &&& (shown->Lines_0)[0] == "Stacks: "@ + decimal(rows.len())
            &&& forall|i: int|
                #![trigger rows[i]]
                0 <= i < rows.len() ==> (shown->Lines_0)[1 + i] == "  "@ + rows[i].entry.cluster
                    + "/"@ + rows[i].entry.name + (": "@ + phase_word(rows[i].entry.phase) + (
                if rows[i].drifted == Some(true) {
                    " (drifted)"@
                } else {
                    Seq::empty()
                }))
        }),
{
    let lines = status_lines(rows);
    reveal_strlit("");
    assert(""@ =~= Seq::empty());
    assert forall|i: int| #![trigger rows[i]] 0 <= i < rows.len() implies lines[1 + i] == "  "@
        + rows[i].entry.cluster + "/"@ + rows[i].entry.name + (": "@ + phase_word(
        rows[i].entry.phase,
    ) + (if rows[i].drifted == Some(true) {
        " (drifted)"@
    } else {
        Seq::empty()
    })) by {
        assert(lines[1 + i] =~= "  "@ + rows[i].entry.cluster + "/"@ + rows[i].entry.name + (": "@
            + phase_word(rows[i].entry.phase) + (if rows[i].drifted == Some(true) {
            " (drifted)"@
        } else {
            Seq::empty()
        })));
    }
}

/// As a document, the status tells of each recorded stack the cluster, the name,
/// the phase, the digest, the time and whether it has drifted.
pub proof fn law_the_status_tells_every_stack(rows: Seq<RowView>, rows2: Seq<RowView>)
    ensures
        reports_success(status_shown(OutputFormat::Json, rows)),
        status_shown(OutputFormat::Json, rows) == status_shown(OutputFormat::Json, rows2) ==> {
            &&& rows.len() == rows2.len()
            &&& forall|i: int|
                0 <= i < rows.len() ==> {
                    &&& (#[trigger] rows[i]).drifted == rows2[i].drifted
                    &&& rows[i].entry.cluster == rows2[i].entry.cluster
                    &&& rows[i].entry.name == rows2[i].entry.name
                    &&& rows[i].entry.phase == rows2[i].entry.phase
                    &&& rows[i].entry.digest == rows2[i].entry.digest
                    &&& rows[i].entry.timestamp == rows2[i].entry.timestamp
                }
        },
{
    let shown = status_shown(OutputFormat::Json, rows);
    let again = status_shown(OutputFormat::Json, rows2);
    if shown == again {
        assert(data_of(shown)[0].1 == data_of(again)[0].1);
        assert(statuses_json(rows) == statuses_json(rows2));
        assert(statuses_json(rows).len() == rows.len());
        assert(statuses_json(rows2).len() == rows2.len());
        assert forall|i: int| 0 <= i < rows.len() implies {
            &&& (#[trigger] rows[i]).drifted == rows2[i].drifted
            &&& rows[i].entry.cluster == rows2[i].entry.cluster
            &&& rows[i].entry.name == rows2[i].entry.name
            &&& rows[i].entry.phase == rows2[i].entry.phase
            &&& rows[i].entry.digest == rows2[i].entry.digest
            &&& rows[i].entry.timestamp == rows2[i].entry.timestamp
        } by {
            assert(statuses_json(rows)[i] == statuses_json(rows2)[i]);
            let x = status_json(rows[i])->Object_0;
            let y = status_json(rows2[i])->Object_0;
            assert(x[0].1 == y[0].1 && x[1].1 == y[1].1 && x[2].1 == y[2].1);
            assert(x[3].1 == y[3].1 && x[4].1 == y[4].1 && x[5].1 == y[5].1);
            law_phase_words_are_unique(rows[i].entry.phase, rows2[i].entry.phase);
            law_numerals_are_unique(
                rows[i].entry.timestamp as nat,
                rows2[i].entry.timestamp as nat,
            );
        }
    }
}

// ---------------------------------------------------------------
// Members
// ---------------------------------------------------------------

/// A text as a value; null, if there is none.
pub open spec fn text_or_null(text: Option<Seq<char>>) -> JsonView {
    match text {
        Some(t) => JsonView::String(t),
        None => JsonView::Null,
    }
}

/// Each part of a result stands under its own name in the document.
pub proof fn law_results_stand_under_their_names(
    cluster: Seq<char>,
    result: ResultView,
    row: RowView,
    name: Seq<char>,
    spec: StackSpec,
)
    ensures
        apply_json(result)->Object_0 == seq![
            ("error"@, text_or_null(result.error)),
            ("name"@, JsonView::String(result.name)),
            ("stepsExecuted"@, JsonView::Number(decimal(result.steps_executed))),
            ("success"@, JsonView::Bool(result.success)),
        ],
        status_json(row)->Object_0 == seq![
            ("cluster"@, JsonView::String(row.entry.cluster)),
            ("digest"@, text_or_null(row.entry.digest)),
            (
                "drifted"@,
                match row.drifted {
                    Some(b) => JsonView::Bool(b),
                    None => JsonView::Null,
                },
            ),
            ("name"@, JsonView::String(row.entry.name)),
            ("phase"@, JsonView::String(phase_word(row.entry.phase))),
            ("timestamp"@, JsonView::Number(decimal(row.entry.timestamp as nat))),
        ],
        list_entry_json(name, spec)->Object_0 == seq![
            ("description"@, text_or_null(opt_text(spec.description))),
            ("name"@, JsonView::String(name)),
            ("steps"@, JsonView::Number(decimal(spec.steps@.len()))),
        ],
{
}

/// The documents list the stacks one by one, in their order.
pub proof fn law_results_are_listed(
    cluster: Seq<char>,
    results: Seq<ResultView>,
    rows: Seq<RowView>,
    config: ForgeConfig,
)
    ensures
        ({
            let data = data_of(apply_shown(OutputFormat::Json, cluster, results));
            &&& data.len() == 2
            &&& data[0] == ("cluster"@, JsonView::String(cluster))
            &&& data[1].0 == "stacks"@
            &&& (data[1].1->Array_0).len() == results.len()
            &&& forall|i: int|
                #![trigger results[i]]
                0 <= i < results.len() ==> data[1].1->Array_0[i] == apply_json(results[i])
        }),
        ({
            let data = data_of(status_shown(OutputFormat::Json, rows));
            &&& data.len() == 1
            &&& data[0].0 == "stacks"@
            &&& (data[0].1->Array_0).len() == rows.len()
            &&& forall|i: int|
                #![trigger rows[i]]
                0 <= i < rows.len() ==> data[0].1->Array_0[i] == status_json(rows[i])
        }),
        ({
            let data = data_of(list_shown(config, OutputFormat::Json));
            let stacks = config.spec.stacks@;
            &&& data.len() == 1
            &&& data[0].0 == "stacks"@
            &&& (data[0].1->Array_0).len() == stacks.len()
            &&& forall|i: int|
                #![trigger stacks[i]]
                0 <= i < stacks.len() ==> data[0].1->Array_0[i] == list_entry_json(
                    stacks[i].0,
                    stacks[i].1,
                )
        }),
{
}

} // verus!
