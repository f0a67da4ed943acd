//! How stack lists, plans, results and statuses are shown.

pub mod laws;

use vstd::prelude::*;
use crate::config::document::{number_json, step_type_label, step_type_word};
use crate::config::{ForgeConfig, StackSpec, StepSpec};
use crate::context::{success, success_document, ForgeContext, OutputFormat, Shown, ShownView};
use crate::json::{compact, item_views, optional_view, to_text, Json, JsonView, ObjectBuilder};
use crate::numeral::{decimal, to_decimal};
use crate::state::{StackPhase, StackState, StackView};
use crate::text::{
    borrow_text, join2, join3, join4, join5, join6, opt_text, texts,
};

verus! {

// ---------------------------------------------------------------
// Step descriptions
// ---------------------------------------------------------------

/// A human-readable description of a step.
pub open spec fn description_of(step: StepSpec) -> Seq<char> {
    match step {
        StepSpec::Url { url, .. } => "download "@ + url@,
        StepSpec::Manifest { path } => "apply "@ + path@,
        StepSpec::Kustomize { path } => "kustomize "@ + path@,
        StepSpec::Helm { release, chart, .. } => "helm "@ + release@ + " ("@ + chart@ + ")"@,
        StepSpec::Deployment { name, image, .. } => "deploy "@ + name@ + " ("@ + image@ + ")"@,
        StepSpec::Service { name, port, .. } => "service "@ + name@ + ":"@ + decimal(port as nat),
        StepSpec::Wait { resource, .. } => "wait "@ + resource@,
        StepSpec::Exec { command, .. } => if command@.len() == 0 {
            "exec <empty>"@
        } else {
            "exec "@ + command@[0]@
        },
        StepSpec::ForEach { property, steps } => "for-each "@ + property@ + " ("@ + decimal(
            steps@.len(),
        ) + " steps)"@,
        StepSpec::MetallbAutoPool { name } => "metallb pool "@ + name@,
        StepSpec::CoreDnsForward { zone, .. } => "coredns forward "@ + zone@,
        StepSpec::Capture { key, resource, .. } => "capture "@ + key@ + " from "@ + resource@,
        StepSpec::TemplateManifest { path } => "template-apply "@ + path@,
        StepSpec::TemplateFile { source, target } => "template-file "@ + source@ + " -> "@
            + target@,
    }
}

/// Return a human-readable description for a step.
pub fn step_description(step: &StepSpec) -> (r: String)
    ensures
        r@ == description_of(*step),
{
    match step {
        StepSpec::Url { url, .. } => join2("download ", url),
        StepSpec::Manifest { path } => join2("apply ", path),
        StepSpec::Kustomize { path } => join2("kustomize ", path),
        StepSpec::Helm { release, chart, .. } => join5("helm ", release, " (", chart, ")"),
        StepSpec::Deployment { name, image, .. } => join5("deploy ", name, " (", image, ")"),
        StepSpec::Service { name, port, .. } => join4(
            "service ",
            name,
            ":",
            &to_decimal(*port as u64),
        ),
        StepSpec::Wait { resource, .. } => join2("wait ", resource),
        StepSpec::Exec { command, .. } => if command.len() == 0 {
            "exec <empty>".to_owned()
        } else {
            join2("exec ", &command[0])
        },
        StepSpec::ForEach { property, steps } => join5(
            "for-each ",
            property,
            " (",
            &to_decimal(steps.len() as u64),
            " steps)",
        ),
        StepSpec::MetallbAutoPool { name } => join2("metallb pool ", name),
        StepSpec::CoreDnsForward { zone, .. } => join2("coredns forward ", zone),
        StepSpec::Capture { key, resource, .. } => join4("capture ", key, " from ", resource),
        StepSpec::TemplateManifest { path } => join2("template-apply ", path),
        StepSpec::TemplateFile { source, target } => join4("template-file ", source, " -> ", target),
    }
}

/// The warning that a step deserves, if any.
pub open spec fn warning_of(step: StepSpec) -> Option<Seq<char>> {
    match step {
        StepSpec::Exec { .. } => Some("exec is an explicit command escape hatch"@),
        _ => None,
    }
}

/// Return a warning for steps that deserve explicit operator attention.
pub fn step_warning(step: &StepSpec) -> (r: Option<&'static str>)
    ensures
        crate::text::opt_str(r) == warning_of(*step),
{
    match step {
        StepSpec::Exec { .. } => Some("exec is an explicit command escape hatch"),
        _ => None,
    }
}

// ---------------------------------------------------------------
// List rendering
// ---------------------------------------------------------------

/// A configured stack as an item of the list.
pub open spec fn list_entry_json(name: Seq<char>, spec: StackSpec) -> JsonView {
    JsonView::Object(
        seq![
            ("description"@, optional_view(opt_text(spec.description))),
            ("name"@, JsonView::String(name)),
            ("steps"@, number_json(spec.steps@.len())),
        ],
    )
}

/// Build a JSON entry for one stack in the list.
pub fn stack_list_entry(name: &str, spec: &StackSpec) -> (r: Json)
    ensures
        r@ == list_entry_json(name@, *spec),
{
    let mut object = ObjectBuilder::new();
    object.put("description", Json::optional(borrow_text(&spec.description)));
    object.put("name", Json::text(name));
    object.put("steps", Json::number(spec.steps.len() as u64));
    assert(object@ =~= list_entry_json(name@, *spec)->Object_0);
    object.finish()
}

/// The configured stacks as items of the list.
pub open spec fn list_entries(stacks: Seq<(Seq<char>, StackSpec)>) -> Seq<JsonView> {
    Seq::new(stacks.len(), |i: int| list_entry_json(stacks[i].0, stacks[i].1))
}

/// The list of configured stacks as a document.
pub open spec fn list_document(config: ForgeConfig) -> JsonView {
    success_document(
        JsonView::Object(
            seq![("stacks"@, JsonView::Array(list_entries(config.spec.stacks@)))],
        ),
    )
}

/// Render stack list as JSON.
pub fn render_list_json(ctx: &ForgeContext<'_>) -> (r: Json)
    ensures
        r@ == list_document(*ctx.config),
{
    let stacks = &ctx.config.spec.stacks;
    let ghost all = list_entries(stacks@);
    let mut items: Vec<Json> = Vec::new();
    let mut i: usize = 0;
    assert(item_views(items@) =~= all.take(0));
    while i < stacks.len()
        invariant
            all == list_entries(stacks@),
            i <= stacks@.len(),
            item_views(items@) == all.take(i as int),
        decreases stacks@.len() - i,
    {
        let ghost before = items@;
        items.push(stack_list_entry(stacks.key_at(i), stacks.value_at(i)));
        i += 1;
        assert(item_views(items@) =~= item_views(before).push(all[i - 1]));
        assert(item_views(items@) =~= all.take(i as int));
    }
    assert(all.take(i as int) =~= all);
    let mut data = ObjectBuilder::new();
    data.put("stacks", Json::list(items));
    assert(data@ =~= seq![("stacks"@, JsonView::Array(all))]);
    success(data.finish())
}

/// A configured stack as a line of the list.
pub open spec fn list_line(name: Seq<char>, spec: StackSpec) -> Seq<char> {
    "  - "@ + name + " ("@ + decimal(spec.steps@.len()) + " steps)"@
}

/// The list of configured stacks as lines.
pub open spec fn list_lines(stacks: Seq<(Seq<char>, StackSpec)>) -> Seq<Seq<char>> {
    seq!["Stacks: "@ + decimal(stacks.len())] + Seq::new(
        stacks.len(),
        |i: int| list_line(stacks[i].0, stacks[i].1),
    )
}

/// Render stack list as text.
pub fn render_list_text(ctx: &ForgeContext<'_>) -> (r: Vec<String>)
    ensures
        texts(r@) == list_lines(ctx.config.spec.stacks@),
{
    let stacks = &ctx.config.spec.stacks;
    let ghost all = list_lines(stacks@);
    let mut lines: Vec<String> = Vec::new();
    lines.push(join2("Stacks: ", &to_decimal(stacks.len() as u64)));
    assert(texts(lines@) =~= all.take(1));
    let mut i: usize = 0;
    while i < stacks.len()
        invariant
            all == list_lines(stacks@),
            i <= stacks@.len(),
            texts(lines@) == all.take(i + 1),
        decreases stacks@.len() - i,
    {
        let ghost before = lines@;
        let line = join5(
            "  - ",
            stacks.key_at(i),
            " (",
            &to_decimal(stacks.value_at(i).steps.len() as u64),
            " steps)",
        );
        lines.push(line);
        assert(all[i + 1] == line@);
        i += 1;
        assert(texts(lines@) =~= texts(before).push(all[i as int]));
        assert(texts(lines@) =~= all.take(i + 1));
    }
    assert(all.take(i + 1) =~= all);
    lines
}

// ---------------------------------------------------------------
// Plan rendering
// ---------------------------------------------------------------

/// A rendered step, and the item that it was expanded for.
#[derive(Debug)]
pub struct PlannedStep {
    /// The rendered step.
    pub step: StepSpec,
    /// The item of a repetition.
    pub item: Option<Json>,
}

/// A stack expanded and rendered for planning.
#[derive(Debug)]
pub struct PlannedStack {
    /// Stack name.
    pub name: String,
    /// Rendered, for-each-expanded steps in execution order.
    pub steps: Vec<PlannedStep>,
}

/// A planned stack as contracts speak of it.
pub struct PlannedView {
    /// Stack name.
    pub name: Seq<char>,
    /// Rendered steps.
    pub steps: Seq<PlannedStep>,
}

impl PlannedStack {
    pub open spec fn view(&self) -> PlannedView {
        PlannedView { name: self.name@, steps: self.steps@ }
    }
}

/// The planned stacks of a list.
pub open spec fn planned_views(v: Seq<PlannedStack>) -> Seq<PlannedView> {
    Seq::new(v.len(), |i: int| v[i]@)
}

/// The item of a step as a value.
pub open spec fn item_json(item: Option<Json>) -> JsonView {
    match item {
        Some(value) => value@,
        None => JsonView::Null,
    }
}

/// A planned step as a value.
pub open spec fn planned_step_json(planned: PlannedStep) -> JsonView {
    JsonView::Object(
        seq![
            ("description"@, JsonView::String(description_of(planned.step))),
            ("item"@, item_json(planned.item)),
            ("type"@, JsonView::String(step_type_word(planned.step))),
            ("warning"@, optional_view(warning_of(planned.step))),
        ],
    )
}

/// Build a JSON entry for one planned step.
pub fn planned_step_entry(planned: &PlannedStep) -> (r: Json)
    ensures
        r@ == planned_step_json(*planned),
{
    let item = match &planned.item {
        Some(value) => value.duplicate(),
        None => Json::Null,
    };
    let mut object = ObjectBuilder::new();
    object.put("description", Json::text(&step_description(&planned.step)));
    object.put("item", item);
    object.put("type", Json::text(step_type_label(&planned.step)));
    object.put("warning", Json::optional(step_warning(&planned.step)));
    assert(object@ =~= planned_step_json(*planned)->Object_0);
    object.finish()
}

/// The planned steps as values.
pub open spec fn planned_steps_json(steps: Seq<PlannedStep>) -> Seq<JsonView> {
    Seq::new(steps.len(), |i: int| planned_step_json(steps[i]))
}

/// A planned stack as a value.
pub open spec fn plan_json(cluster: Seq<char>, stack: PlannedView) -> JsonView {
    JsonView::Object(
        seq![
            ("cluster"@, JsonView::String(cluster)),
            ("stack"@, JsonView::String(stack.name)),
            ("steps"@, JsonView::Array(planned_steps_json(stack.steps))),
        ],
    )
}

/// Build a JSON entry for one planned stack.
pub fn plan_entry(cluster: &str, stack: &PlannedStack) -> (r: Json)
    ensures
        r@ == plan_json(cluster@, stack@),
{
    let ghost all = planned_steps_json(stack.steps@);
    let mut steps: Vec<Json> = Vec::new();
    let mut i: usize = 0;
    assert(item_views(steps@) =~= all.take(0));
    while i < stack.steps.len()
        invariant
            all == planned_steps_json(stack.steps@),
            i <= stack.steps@.len(),
            item_views(steps@) == all.take(i as int),
        decreases stack.steps.len() - i,
    {
        let ghost before = steps@;
        steps.push(planned_step_entry(&stack.steps[i]));
        i += 1;
        assert(item_views(steps@) =~= item_views(before).push(all[i - 1]));
        assert(item_views(steps@) =~= all.take(i as int));
    }
    assert(all.take(i as int) =~= all);
    let mut object = ObjectBuilder::new();
    object.put("cluster", Json::text(cluster));
    object.put("stack", Json::text(&stack.name));
    object.put("steps", Json::list(steps));
    assert(object@ =~= plan_json(cluster@, stack@)->Object_0);
    object.finish()
}

/// The planned stacks as values.
pub open spec fn plans_json(cluster: Seq<char>, planned: Seq<PlannedView>) -> Seq<JsonView> {
    Seq::new(planned.len(), |i: int| plan_json(cluster, planned[i]))
}

/// A plan as a document.
pub open spec fn plan_document(cluster: Seq<char>, planned: Seq<PlannedView>) -> JsonView {
    success_document(
        JsonView::Object(
            seq![
                ("cluster"@, JsonView::String(cluster)),
                ("stacks"@, JsonView::Array(plans_json(cluster, planned))),
            ],
        ),
    )
}

/// Render plan as JSON.
pub fn render_plan_json(cluster: &str, planned: &Vec<PlannedStack>) -> (r: Json)
    ensures
        r@ == plan_document(cluster@, planned_views(planned@)),
{
    let ghost all = plans_json(cluster@, planned_views(planned@));
    let mut entries: Vec<Json> = Vec::new();
    let mut i: usize = 0;
    assert(item_views(entries@) =~= all.take(0));
    while i < planned.len()
        invariant
            all == plans_json(cluster@, planned_views(planned@)),
            i <= planned@.len(),
            item_views(entries@) == all.take(i as int),
        decreases planned.len() - i,
    {
        let ghost before = entries@;
        entries.push(plan_entry(cluster, &planned[i]));
        i += 1;
        assert(item_views(entries@) =~= item_views(before).push(all[i - 1]));
        assert(item_views(entries@) =~= all.take(i as int));
    }
    assert(all.take(i as int) =~= all);
    let mut data = ObjectBuilder::new();
    data.put("cluster", Json::text(cluster));
    data.put("stacks", Json::list(entries));
    assert(data@ =~= seq![
        ("cluster"@, JsonView::String(cluster@)),
        ("stacks"@, JsonView::Array(all)),
    ]);
    success(data.finish())
}

/// The annotation of a step with its item.
pub open spec fn item_suffix(item: Option<Json>) -> Seq<char> {
    match item {
        Some(value) => " (item "@ + compact(value@) + ")"@,
        None => Seq::empty(),
    }
}

/// Format the for-each item annotation for a planned step, if any.
pub fn plan_item_suffix(item: &Option<Json>) -> (r: String)
    ensures
        r@ == item_suffix(*item),
{
    match item {
        Some(value) => join3(" (item ", &to_text(value), ")"),
        None => {
            let none = String::new();
            assert(none@ =~= Seq::<char>::empty());
            none
        },
    }
}

/// The line of a planned step, which is number `n` of its stack.
pub open spec fn planned_step_line(planned: PlannedStep, n: nat) -> Seq<char> {
    "  "@ + decimal(n) + ". ["@ + step_type_word(planned.step) + "] "@ + (description_of(
        planned.step,
    ) + item_suffix(planned.item))
}

/// The lines of the first `n` planned steps of a stack.
pub open spec fn planned_step_lines(steps: Seq<PlannedStep>, n: int) -> Seq<Seq<char>>
    decreases n,
{
    if n <= 0 {
        Seq::empty()
    } else {
        let before = planned_step_lines(steps, n - 1).push(
            planned_step_line(steps[n - 1], n as nat),
        );
        match warning_of(steps[n - 1].step) {
            Some(warning) => before.push("     WARNING: "@ + warning),
            None => before,
        }
    }
}

/// Render the expanded step list for plan text output.
pub fn render_planned_steps(steps_list: &Vec<PlannedStep>) -> (r: Vec<String>)
    ensures
        texts(r@) == planned_step_lines(steps_list@, steps_list@.len() as int),
{
    let mut lines: Vec<String> = Vec::new();
    let n = steps_list.len();
    let mut i: usize = 0;
    assert(texts(lines@) =~= planned_step_lines(steps_list@, 0));
    while i < n
        invariant
            n == steps_list@.len(),
            i <= n,
            texts(lines@) == planned_step_lines(steps_list@, i as int),
        decreases n - i,
    {
        let planned = &steps_list[i];
        let ghost before = lines@;
        let detail = join2(&step_description(&planned.step), &plan_item_suffix(&planned.item));
        let line = join6(
            "  ",
            &to_decimal((i + 1) as u64),
            ". [",
            step_type_label(&planned.step),
            "] ",
            &detail,
        );
        assert(line@ == planned_step_line(*planned, (i + 1) as nat));
        lines.push(line);
        assert(texts(lines@) =~= texts(before).push(line@));
        if let Some(warning) = step_warning(&planned.step) {
            let ghost so_far = lines@;
            let note = join2("     WARNING: ", warning);
            lines.push(note);
            assert(texts(lines@) =~= texts(so_far).push(note@));
        }
        i += 1;
    }
    lines
}

/// The lines of the first `n` planned stacks.
pub open spec fn plan_lines(cluster: Seq<char>, planned: Seq<PlannedView>, n: int) -> Seq<
    Seq<char>,
>
    decreases n,
{
    if n <= 0 {
        Seq::empty()
    } else {
        plan_lines(cluster, planned, n - 1).push(
            "Stack: "@ + planned[n - 1].name + " -> "@ + cluster,
        ) + planned_step_lines(planned[n - 1].steps, planned[n - 1].steps.len() as int)
    }
}

/// Appends lines to lines.
pub(crate) fn append_lines(lines: &mut Vec<String>, more: Vec<String>)
    ensures
        texts(final(lines)@) == texts(old(lines)@) + texts(more@),
{
    let mut more = more;
    let ghost before = lines@;
    let ghost added = more@;
    lines.append(&mut more);
    assert(texts(lines@) =~= texts(before) + texts(added));
}

/// Render plan as text.
pub fn render_plan_text(cluster: &str, planned: &Vec<PlannedStack>) -> (r: Vec<String>)
    ensures
        texts(r@) == plan_lines(cluster@, planned_views(planned@), planned@.len() as int),
{
    let mut lines: Vec<String> = Vec::new();
    let ghost views = planned_views(planned@);
    let mut i: usize = 0;
    assert(texts(lines@) =~= plan_lines(cluster@, views, 0));
    while i < planned.len()
        invariant
            views == planned_views(planned@),
            i <= planned@.len(),
            texts(lines@) == plan_lines(cluster@, views, i as int),
        decreases planned.len() - i,
    {
        let stack = &planned[i];
        assert(views[i as int] == stack@);
        let ghost before = lines@;
        let head = join4("Stack: ", &stack.name, " -> ", cluster);
        lines.push(head);
        assert(texts(lines@) =~= texts(before).push(head@));
        append_lines(&mut lines, render_planned_steps(&stack.steps));
        i += 1;
    }
    lines
}

/// A plan as it is shown.
pub open spec fn plan_shown(
    format: OutputFormat,
    cluster: Seq<char>,
    planned: Seq<PlannedView>,
) -> ShownView {
    match format {
        OutputFormat::Json => ShownView::Document(plan_document(cluster, planned)),
        OutputFormat::Text => ShownView::Lines(
            plan_lines(cluster, planned, planned.len() as int),
        ),
    }
}

/// Render a plan.
pub fn render_plan(format: OutputFormat, cluster: &str, planned: &Vec<PlannedStack>) -> (r: Shown)
    ensures
        r@ == plan_shown(format, cluster@, planned_views(planned@)),
{
    match format {
        OutputFormat::Json => Shown::Document(render_plan_json(cluster, planned)),
        OutputFormat::Text => Shown::Lines(render_plan_text(cluster, planned)),
    }
}

// ---------------------------------------------------------------
// Apply rendering
// ---------------------------------------------------------------

/// Result of one stack apply attempt.
#[derive(Clone, Debug)]
pub struct ApplyResult {
    /// Stack name.
    pub name: String,
    /// Number of steps executed.
    pub steps_executed: usize,
    /// Whether the apply succeeded.
    pub success: bool,
    /// Underlying step failure, when the apply did not succeed.
    pub error: Option<String>,
}

/// A result as contracts speak of it.
pub struct ResultView {
    /// Stack name.
    pub name: Seq<char>,
    /// Number of steps executed.
    pub steps_executed: nat,
    /// Whether the apply succeeded.
    pub success: bool,
    /// Underlying step failure.
    pub error: Option<Seq<char>>,
}

impl ApplyResult {
    pub open spec fn view(&self) -> ResultView {
        ResultView {
            name: self.name@,
            steps_executed: self.steps_executed as nat,
            success: self.success,
            error: opt_text(self.error),
        }
    }
}

/// The results of a list.
pub open spec fn result_views(v: Seq<ApplyResult>) -> Seq<ResultView> {
    Seq::new(v.len(), |i: int| v[i]@)
}

/// A result as a value.
pub open spec fn apply_json(result: ResultView) -> JsonView {
    JsonView::Object(
        seq![
            ("error"@, optional_view(result.error)),
            ("name"@, JsonView::String(result.name)),
            ("stepsExecuted"@, number_json(result.steps_executed)),
            ("success"@, JsonView::Bool(result.success)),
        ],
    )
}

/// Build a JSON entry for one apply result.
pub fn apply_entry(result: &ApplyResult) -> (r: Json)
    ensures
        r@ == apply_json(result@),
{
    let mut object = ObjectBuilder::new();
    object.put("error", Json::optional(borrow_text(&result.error)));
    object.put("name", Json::text(&result.name));
    object.put("stepsExecuted", Json::number(result.steps_executed as u64));
    object.put("success", Json::Bool(result.success));
    assert(object@ =~= apply_json(result@)->Object_0);
    object.finish()
}

/// The results as values.
pub open spec fn applies_json(results: Seq<ResultView>) -> Seq<JsonView> {
    Seq::new(results.len(), |i: int| apply_json(results[i]))
}

/// Results as a document.
pub open spec fn apply_document(cluster: Seq<char>, results: Seq<ResultView>) -> JsonView {
    success_document(
        JsonView::Object(
            seq![
                ("cluster"@, JsonView::String(cluster)),
                ("stacks"@, JsonView::Array(applies_json(results))),
            ],
        ),
    )
}

/// Render apply results as JSON.
pub fn render_apply_json(cluster: &str, results: &Vec<ApplyResult>) -> (r: Json)
    ensures
        r@ == apply_document(cluster@, result_views(results@)),
{
    let ghost all = applies_json(result_views(results@));
    let mut entries: Vec<Json> = Vec::new();
    let mut i: usize = 0;
    assert(item_views(entries@) =~= all.take(0));
    while i < results.len()
        invariant
            all == applies_json(result_views(results@)),
            i <= results@.len(),
            item_views(entries@) == all.take(i as int),
        decreases results.len() - i,
    {
        let ghost before = entries@;
        entries.push(apply_entry(&results[i]));
        i += 1;
        assert(item_views(entries@) =~= item_views(before).push(all[i - 1]));
        assert(item_views(entries@) =~= all.take(i as int));
    }
    assert(all.take(i as int) =~= all);
    let mut data = ObjectBuilder::new();
    data.put("cluster", Json::text(cluster));
    data.put("stacks", Json::list(entries));
    assert(data@ =~= seq![
        ("cluster"@, JsonView::String(cluster@)),
        ("stacks"@, JsonView::Array(all)),
    ]);
    success(data.finish())
}

/// The line of a result.
pub open spec fn apply_line(cluster: Seq<char>, result: ResultView) -> Seq<char> {
    (if result.success {
        "applied"@
    } else {
        "FAILED"@
    }) + " stack "@ + result.name + " -> "@ + cluster + (" ("@ + decimal(result.steps_executed)
        + " steps)"@)
}

/// Render apply results as text.
pub fn render_apply_text(cluster: &str, results: &Vec<ApplyResult>) -> (r: Vec<String>)
    ensures
        texts(r@) == Seq::new(
            results@.len(),
            |i: int| apply_line(cluster@, result_views(results@)[i]),
        ),
{
    let ghost all = Seq::new(
        results@.len(),
        |i: int| apply_line(cluster@, result_views(results@)[i]),
    );
    let mut lines: Vec<String> = Vec::new();
    let mut i: usize = 0;
    assert(texts(lines@) =~= all.take(0));
    while i < results.len()
        invariant
            all == Seq::new(
                results@.len(),
                |i: int| apply_line(cluster@, result_views(results@)[i]),
            ),
            i <= results@.len(),
            texts(lines@) == all.take(i as int),
        decreases results.len() - i,
    {
        let result = &results[i];
        let status = if result.success {
            "applied"
        } else {
            "FAILED"
        };
        let tail = join3(" (", &to_decimal(result.steps_executed as u64), " steps)");
        let line = join6(status, " stack ", &result.name, " -> ", cluster, &tail);
        let ghost before = lines@;
        assert(line@ == all[i as int]);
        lines.push(line);
        i += 1;
        assert(texts(lines@) =~= texts(before).push(line@));
        assert(texts(lines@) =~= all.take(i as int));
    }
    assert(all.take(i as int) =~= all);
    lines
}

/// Results as they are shown.
pub open spec fn apply_shown(
    format: OutputFormat,
    cluster: Seq<char>,
    results: Seq<ResultView>,
) -> ShownView {
    match format {
        OutputFormat::Json => ShownView::Document(apply_document(cluster, results)),
        OutputFormat::Text => ShownView::Lines(
            Seq::new(results.len(), |i: int| apply_line(cluster, results[i])),
        ),
    }
}

/// Render apply results.
pub fn render_apply(cluster: &str, results: &Vec<ApplyResult>, format: OutputFormat) -> (r: Shown)
    ensures
        r@ == apply_shown(format, cluster@, result_views(results@)),
{
    match format {
        OutputFormat::Json => Shown::Document(render_apply_json(cluster, results)),
        OutputFormat::Text => {
            let lines = render_apply_text(cluster, results);
            let ghost views = result_views(results@);
            assert(texts(lines@) =~= Seq::new(
                views.len(),
                |i: int| apply_line(cluster@, views[i]),
            ));
            Shown::Lines(lines)
        },
    }
}

// ---------------------------------------------------------------
// Status rendering
// ---------------------------------------------------------------

/// One stack status row with computed drift.
#[derive(Debug)]
pub struct StatusRow<'st> {
    /// Persisted stack state entry.
    pub entry: &'st StackState,
    /// Whether the configured spec has drifted from the applied
    /// digest (`None` when drift cannot be determined).
    pub drifted: Option<bool>,
}

/// A row as contracts speak of it.
pub struct RowView {
    /// Persisted stack state entry.
    pub entry: StackView,
    /// Whether the configured spec has drifted.
    pub drifted: Option<bool>,
}

impl<'st> StatusRow<'st> {
    pub open spec fn view(&self) -> RowView {
        RowView { entry: self.entry@, drifted: self.drifted }
    }
}

/// The rows of a list.
pub open spec fn row_views(v: Seq<StatusRow>) -> Seq<RowView> {
    Seq::new(v.len(), |i: int| v[i]@)
}

/// The word for a phase of a stack.
pub open spec fn phase_word(phase: StackPhase) -> Seq<char> {
    match phase {
        StackPhase::Applying => "applying"@,
        StackPhase::Applied => "applied"@,
        StackPhase::Failed => "failed"@,
    }
}

fn phase_text(phase: StackPhase) -> (r: &'static str)
    ensures
        r@ == phase_word(phase),
{
    match phase {
        StackPhase::Applying => "applying",
        StackPhase::Applied => "applied",
        StackPhase::Failed => "failed",
    }
}

/// An optional truth value as a value.
pub open spec fn optional_bool_json(value: Option<bool>) -> JsonView {
    match value {
        Some(b) => JsonView::Bool(b),
        None => JsonView::Null,
    }
}

/// A status row as a value.
pub open spec fn status_json(row: RowView) -> JsonView {
    JsonView::Object(
        seq![
            ("cluster"@, JsonView::String(row.entry.cluster)),
            ("digest"@, optional_view(row.entry.digest)),
            ("drifted"@, optional_bool_json(row.drifted)),
            ("name"@, JsonView::String(row.entry.name)),
            ("phase"@, JsonView::String(phase_word(row.entry.phase))),
            ("timestamp"@, number_json(row.entry.timestamp as nat)),
        ],
    )
}

/// Build a JSON entry for one stack status row.
pub fn status_entry(row: &StatusRow<'_>) -> (r: Json)
    ensures
        r@ == status_json(row@),
{
    let drifted = match row.drifted {
        Some(b) => Json::Bool(b),
        None => Json::Null,
    };
    let mut object = ObjectBuilder::new();
    object.put("cluster", Json::text(&row.entry.cluster));
    object.put("digest", Json::optional(borrow_text(&row.entry.digest)));
    object.put("drifted", drifted);
    object.put("name", Json::text(&row.entry.name));
    object.put("phase", Json::text(phase_text(row.entry.phase)));
    object.put("timestamp", Json::number(row.entry.timestamp));
    assert(object@ =~= status_json(row@)->Object_0);
    object.finish()
}

/// The rows as values.
pub open spec fn statuses_json(rows: Seq<RowView>) -> Seq<JsonView> {
    Seq::new(rows.len(), |i: int| status_json(rows[i]))
}

/// A status as a document.
pub open spec fn status_document(rows: Seq<RowView>) -> JsonView {
    success_document(
        JsonView::Object(seq![("stacks"@, JsonView::Array(statuses_json(rows)))]),
    )
}

/// Render status as JSON.
pub fn render_status_json(rows: &Vec<StatusRow<'_>>) -> (r: Json)
    ensures
        r@ == status_document(row_views(rows@)),
{
    let ghost all = statuses_json(row_views(rows@));
    let mut stacks: Vec<Json> = Vec::new();
    let mut i: usize = 0;
    assert(item_views(stacks@) =~= all.take(0));
    while i < rows.len()
        invariant
            all == statuses_json(row_views(rows@)),
            i <= rows@.len(),
            item_views(stacks@) == all.take(i as int),
        decreases rows.len() - i,
    {
        let ghost before = stacks@;
        stacks.push(status_entry(&rows[i]));
        i += 1;
        assert(item_views(stacks@) =~= item_views(before).push(all[i - 1]));
        assert(item_views(stacks@) =~= all.take(i as int));
    }
    assert(all.take(i as int) =~= all);
    let mut data = ObjectBuilder::new();
    data.put("stacks", Json::list(stacks));
    assert(data@ =~= seq![("stacks"@, JsonView::Array(all))]);
    success(data.finish())
}

/// The line of a status row.
pub open spec fn status_line(row: RowView) -> Seq<char> {
    "  "@ + row.entry.cluster + "/"@ + row.entry.name + ": "@ + (phase_word(row.entry.phase) + if row.drifted
        == Some(true) {
        " (drifted)"@
    } else {
        ""@
    })
}

/// A status as lines.
pub open spec fn status_lines(rows: Seq<RowView>) -> Seq<Seq<char>> {
    seq!["Stacks: "@ + decimal(rows.len())] + Seq::new(rows.len(), |i: int| status_line(rows[i]))
}

/// Render status as text.
pub fn render_status_text(rows: &Vec<StatusRow<'_>>) -> (r: Vec<String>)
    ensures
        texts(r@) == status_lines(row_views(rows@)),
{
    let ghost all = status_lines(row_views(rows@));
    let mut lines: Vec<String> = Vec::new();
    lines.push(join2("Stacks: ", &to_decimal(rows.len() as u64)));
    assert(texts(lines@) =~= all.take(1));
    let mut i: usize = 0;
    while i < rows.len()
        invariant
            all == status_lines(row_views(rows@)),
            i <= rows@.len(),
            texts(lines@) == all.take(i + 1),
        decreases rows.len() - i,
    {
        let row = &rows[i];
        let drift_note = match row.drifted {
            Some(true) => " (drifted)",
            _ => "",
        };
        let tail = join2(phase_text(row.entry.phase), drift_note);
        let line = join6("  ", &row.entry.cluster, "/", &row.entry.name, ": ", &tail);
        let ghost before = lines@;
        assert(line@ == all[i + 1]);
        lines.push(line);
        i += 1;
        assert(texts(lines@) =~= texts(before).push(line@));
        assert(texts(lines@) =~= all.take(i + 1));
    }
    assert(all.take(i + 1) =~= all);
    lines
}

} // verus!
