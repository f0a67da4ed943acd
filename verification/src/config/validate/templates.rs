//! The rule that template syntax stands in stack steps only.

use vstd::prelude::*;
use crate::config::document::{config_json, config_value};
use crate::config::validate::fields::{contains_template_token, has_template_token};
use crate::config::{ForgeConfig, StackSpec};
use crate::error::{invalid, verdict, Complaint, ForgeError};
use crate::json::{field_views, item_views, lemma_json_view, Json, JsonView};
use crate::numeral::{decimal, to_decimal};
use crate::strmap::StrMap;
use crate::text::{join3, join4, occurs_at};

verus! {

/// The path of the first string or key of a value that holds a template token.
pub open spec fn template_path(value: JsonView, path: Seq<char>) -> Option<Seq<char>>
    decreases value, 0int,
{
    match value {
        JsonView::String(text) => if has_template_token(text) {
            Some(path)
        } else {
            None
        },
        JsonView::Array(items) => template_in_items(items, 0, path),
        JsonView::Object(fields) => template_in_fields(fields, 0, path),
        _ => None,
    }
}

/// The path of the first template among the values from position `i` on.
pub open spec fn template_in_items(items: Seq<JsonView>, i: int, path: Seq<char>) -> Option<
    Seq<char>,
>
    decreases items, items.len() - i,
{
    if i < 0 || i >= items.len() {
        None
    } else {
        match template_path(items[i], path + "["@ + decimal(i as nat) + "]"@) {
            Some(found) => Some(found),
            None => template_in_items(items, i + 1, path),
        }
    }
}

/// The path of the first template among the members from position `i` on,
/// keys counted before values.
pub open spec fn template_in_fields(
    fields: Seq<(Seq<char>, JsonView)>,
    i: int,
    path: Seq<char>,
) -> Option<Seq<char>>
    decreases fields, fields.len() - i,
{
    if i < 0 || i >= fields.len() {
        None
    } else {
        let child = path + "."@ + fields[i].0;
        if has_template_token(fields[i].0) {
            Some(child)
        } else {
            match template_path(fields[i].1, child) {
                Some(found) => Some(found),
                None => template_in_fields(fields, i + 1, path),
            }
        }
    }
}

/// True when a template token stands in some string or key of a value.
pub open spec fn mentions_template(value: JsonView) -> bool
    decreases value,
{
    match value {
        JsonView::String(text) => has_template_token(text),
        JsonView::Array(items) => exists|i: int|
            0 <= i < items.len() && mentions_template(#[trigger] items[i]),
        JsonView::Object(fields) => exists|i: int|
            0 <= i < fields.len() && (has_template_token((#[trigger] fields[i]).0)
                || mentions_template(fields[i].1)),
        _ => false,
    }
}

/// A path is reported exactly for the values that mention a template.
pub proof fn lemma_template_path_found(value: JsonView, path: Seq<char>)
    ensures
        template_path(value, path) is Some <==> mentions_template(value),
    decreases value, 0int,
{
    match value {
        JsonView::Array(items) => {
            lemma_template_in_items_found(items, 0, path);
        },
        JsonView::Object(fields) => {
            lemma_template_in_fields_found(fields, 0, path);
        },
        _ => {},
    }
}

proof fn lemma_template_in_items_found(items: Seq<JsonView>, i: int, path: Seq<char>)
    requires
        0 <= i <= items.len(),
    ensures
        template_in_items(items, i, path) is Some <==> exists|k: int|
            i <= k < items.len() && mentions_template(#[trigger] items[k]),
    decreases items, items.len() - i,
{
    if i < items.len() {
        lemma_template_path_found(items[i], path + "["@ + decimal(i as nat) + "]"@);
        lemma_template_in_items_found(items, i + 1, path);
    }
}

proof fn lemma_template_in_fields_found(
    fields: Seq<(Seq<char>, JsonView)>,
    i: int,
    path: Seq<char>,
)
    requires
        0 <= i <= fields.len(),
    ensures
        template_in_fields(fields, i, path) is Some <==> exists|k: int|
            i <= k < fields.len() && (has_template_token((#[trigger] fields[k]).0)
                || mentions_template(fields[k].1)),
    decreases fields, fields.len() - i,
{
    if i < fields.len() {
        lemma_template_path_found(fields[i].1, path + "."@ + fields[i].0);
        lemma_template_in_fields_found(fields, i + 1, path);
    }
}

/// True when the reported path is that of the expected one.
pub open spec fn reports(found: Option<String>, expected: Option<Seq<char>>) -> bool {
    match expected {
        Some(path) => found matches Some(text) && text@ == path,
        None => found is None,
    }
}

/// Recursively find the first string (value or key) containing a
/// template token, returning its dotted path.
pub fn find_template_in_value(value: &Json, path: &str) -> (r: Option<String>)
    ensures
        reports(r, template_path(value@, path@)),
    decreases value,
{
    proof {
        lemma_json_view(*value);
    }
    match value {
        Json::String(text) => if contains_template_token(text) {
            Some(path.to_owned())
        } else {
            None
        },
        Json::Array(items) => find_template_in_items(items, path),
        Json::Object(fields) => find_template_in_fields(fields, path),
        _ => None,
    }
}

fn find_template_in_items(items: &Vec<Json>, path: &str) -> (r: Option<String>)
    ensures
        reports(r, template_in_items(item_views(items@), 0, path@)),
    decreases items,
{
    let ghost views = item_views(items@);
    let mut i: usize = 0;
    while i < items.len()
        invariant
            views == item_views(items@),
            i <= items@.len(),
            template_in_items(views, 0, path@) == template_in_items(views, i as int, path@),
        decreases items.len() - i,
    {
        let child = join4(path, "[", &to_decimal(i as u64), "]");
        assert(views[i as int] == items@[i as int]@);
        let found = find_template_in_value(&items[i], &child);
        if found.is_some() {
            return found;
        }
        i += 1;
    }
    None
}

fn find_template_in_fields(fields: &Vec<(String, Json)>, path: &str) -> (r: Option<String>)
    ensures
        reports(r, template_in_fields(field_views(fields@), 0, path@)),
    decreases fields,
{
    let ghost views = field_views(fields@);
    let mut i: usize = 0;
    while i < fields.len()
        invariant
            views == field_views(fields@),
            i <= fields@.len(),
            template_in_fields(views, 0, path@) == template_in_fields(views, i as int, path@),
        decreases fields.len() - i,
    {
        let child = join3(path, ".", &fields[i].0);
        assert(views[i as int] == (fields@[i as int].0@, fields@[i as int].1@));
        if contains_template_token(&fields[i].0) {
            return Some(child);
        }
        let found = find_template_in_value(&fields[i].1, &child);
        if found.is_some() {
            return found;
        }
        i += 1;
    }
    None
}

/// A configuration as a value, its stacks left out.
pub open spec fn without_stacks(config: ForgeConfig) -> JsonView {
    config_json(config, Seq::<(Seq<char>, StackSpec)>::empty())
}

/// What is wrong with the template syntax of a configuration.
pub open spec fn templates_complaint(config: ForgeConfig) -> Complaint {
    match template_path(without_stacks(config), "$"@) {
        Some(path) => Some(
            "template syntax ({{ ... }}) is not supported outside stack steps (found at "@ + path
                + ")"@,
        ),
        None => None,
    }
}

/// Reject template syntax (`{{ ... }}`) outside stack steps.
///
/// Stack steps may contain template expressions resolved at apply
/// time.  All other config fields must be template-free.
pub fn check_no_templates(config: &ForgeConfig) -> (r: Result<(), ForgeError>)
    ensures
        verdict(r, templates_complaint(*config)),
{
    let no_stacks: StrMap<StackSpec> = StrMap::new();
    let value = config_value(config, &no_stacks);
    if let Some(path) = find_template_in_value(&value, "$") {
        return invalid(
            join3(
                "template syntax ({{ ... }}) is not supported outside stack steps (found at ",
                &path,
                ")",
            ),
        );
    }
    Ok(())
}

// ---------------------------------------------------------------
// Laws
// ---------------------------------------------------------------

/// True when a text is a string or the name of a member somewhere in a value.
pub open spec fn holds_text(value: JsonView, text: Seq<char>) -> bool
    decreases value,
{
    match value {
        JsonView::String(s) => s == text,
        JsonView::Array(items) => exists|i: int|
            0 <= i < items.len() && holds_text(#[trigger] items[i], text),
        JsonView::Object(fields) => exists|i: int|
            0 <= i < fields.len() && ((#[trigger] fields[i]).0 == text || holds_text(
                fields[i].1,
                text,
            )),
        _ => false,
    }
}

/// True when two opening braces stand in a text, and two closing ones somewhere
/// behind them.
pub open spec fn has_braces(text: Seq<char>) -> bool {
    exists|i: int, j: int|
        #![trigger text[i], text[j]]
        0 <= i && i + 2 <= j && j + 1 < text.len() && text[i] == '{' && text[i + 1] == '{'
            && text[j] == '}' && text[j + 1] == '}'
}

/// A text holds template syntax exactly when two opening braces stand in it, and
/// two closing ones somewhere behind them.
pub proof fn law_templates_stand_in_braces(text: Seq<char>)
    ensures
        has_template_token(text) <==> has_braces(text),
{
    reveal_strlit("{{");
    reveal_strlit("}}");
    if has_template_token(text) {
        let (i, j) = choose|i: int, j: int|
            i + 2 <= j && #[trigger] occurs_at(text, "{{"@, i) && #[trigger] occurs_at(
                text,
                "}}"@,
                j,
            );
        assert(text.subrange(i, i + 2)[0] == text[i] && text.subrange(i, i + 2)[1] == text[i + 1]);
        assert(text.subrange(j, j + 2)[0] == text[j] && text.subrange(j, j + 2)[1] == text[j + 1]);
    }
    if has_braces(text) {
        let (i, j) = choose|i: int, j: int|
            #![trigger text[i], text[j]]
            0 <= i && i + 2 <= j && j + 1 < text.len() && text[i] == '{' && text[i + 1] == '{'
                && text[j] == '}' && text[j + 1] == '}';
        assert(text.subrange(i, i + 2) =~= "{{"@);
        assert(text.subrange(j, j + 2) =~= "}}"@);
        assert(occurs_at(text, "{{"@, i) && occurs_at(text, "}}"@, j));
    }
}

/// A value mentions a template wherever one stands in it: in any string and in the
/// name of any member, however deep.
pub proof fn law_every_text_is_searched(value: JsonView, text: Seq<char>)
    requires
        holds_text(value, text),
        has_braces(text),
    ensures
        mentions_template(value),
    decreases value,
{
    law_templates_stand_in_braces(text);
    match value {
        JsonView::String(_) => {},
        JsonView::Array(items) => {
            let i = choose|i: int| 0 <= i < items.len() && holds_text(#[trigger] items[i], text);
            law_every_text_is_searched(items[i], text);
        },
        JsonView::Object(fields) => {
            let i = choose|i: int|
                0 <= i < fields.len() && ((#[trigger] fields[i]).0 == text || holds_text(
                    fields[i].1,
                    text,
                ));
            if fields[i].0 != text {
                law_every_text_is_searched(fields[i].1, text);
            }
            assert(has_template_token(fields[i].0) || mentions_template(fields[i].1));
        },
        _ => {},
    }
}

/// A value mentions a template only where one stands in it.
pub proof fn law_only_templates_are_found(value: JsonView)
    requires
        mentions_template(value),
    ensures
        exists|text: Seq<char>| #[trigger] holds_text(value, text) && has_braces(text),
    decreases value,
{
    match value {
        JsonView::String(s) => {
            law_templates_stand_in_braces(s);
            assert(holds_text(value, s));
        },
        JsonView::Array(items) => {
            let i = choose|i: int| 0 <= i < items.len() && mentions_template(#[trigger] items[i]);
            law_only_templates_are_found(items[i]);
            let text = choose|text: Seq<char>|
                #[trigger] holds_text(items[i], text) && has_braces(text);
            assert(holds_text(value, text));
        },
        JsonView::Object(fields) => {
            let i = choose|i: int|
                0 <= i < fields.len() && (has_template_token((#[trigger] fields[i]).0)
                    || mentions_template(fields[i].1));
            if has_template_token(fields[i].0) {
                law_templates_stand_in_braces(fields[i].0);
                assert(holds_text(value, fields[i].0));
            } else {
                law_only_templates_are_found(fields[i].1);
                let text = choose|text: Seq<char>|
                    #[trigger] holds_text(fields[i].1, text) && has_braces(text);
                assert(holds_text(value, text));
            }
        },
        _ => {},
    }
}

proof fn lemma_located_item(items: Seq<JsonView>, from: int, path: Seq<char>)
    requires
        0 <= from,
    ensures
        template_in_items(items, from, path) matches Some(found) ==> exists|i: int|
            from <= i < items.len() && template_path(
                #[trigger] items[i],
                path + "["@ + decimal(i as nat) + "]"@,
            ) == Some(found) && forall|j: int|
                from <= j < i ==> !mentions_template(#[trigger] items[j]),
    decreases items.len() - from,
{
    if from < items.len() {
        let child = path + "["@ + decimal(from as nat) + "]"@;
        lemma_template_path_found(items[from], child);
        if template_path(items[from], child) is None {
            lemma_located_item(items, from + 1, path);
        }
    }
}

proof fn lemma_located_member(fields: Seq<(Seq<char>, JsonView)>, from: int, path: Seq<char>)
    requires
        0 <= from,
    ensures
        template_in_fields(fields, from, path) matches Some(found) ==> exists|i: int|
            from <= i < fields.len() && (if has_template_token((#[trigger] fields[i]).0) {
                found == path + "."@ + fields[i].0
            } else {
                template_path(fields[i].1, path + "."@ + fields[i].0) == Some(found)
            }) && forall|j: int|
                from <= j < i ==> !has_template_token((#[trigger] fields[j]).0)
                    && !mentions_template(fields[j].1),
    decreases fields.len() - from,
{
    if from < fields.len() {
        let child = path + "."@ + fields[from].0;
        lemma_template_path_found(fields[from].1, child);
        if !has_template_token(fields[from].0) && template_path(fields[from].1, child) is None {
            lemma_located_member(fields, from + 1, path);
        }
    }
}

/// Where a template is reported is where the first one stands: the path goes
/// through the positions of list members in brackets and the names of object
/// members behind dots.
pub proof fn law_the_first_template_is_located(value: JsonView, path: Seq<char>, found: Seq<char>)
    requires
        template_path(value, path) == Some(found),
    ensures
        match value {
            JsonView::String(text) => has_braces(text) && found == path,
            JsonView::Array(items) => exists|i: int|
                0 <= i < items.len() && template_path(
                    #[trigger] items[i],
                    path + "["@ + decimal(i as nat) + "]"@,
                ) == Some(found) && forall|j: int|
                    0 <= j < i ==> !mentions_template(#[trigger] items[j]),
            JsonView::Object(fields) => exists|i: int|
                0 <= i < fields.len() && (if has_braces((#[trigger] fields[i]).0) {
                    found == path + "."@ + fields[i].0
                } else {
                    template_path(fields[i].1, path + "."@ + fields[i].0) == Some(found)
                }) && forall|j: int|
                    0 <= j < i ==> !has_braces((#[trigger] fields[j]).0) && !mentions_template(
                        fields[j].1,
                    ),
            _ => false,
        },
{
    match value {
        JsonView::String(text) => {
            law_templates_stand_in_braces(text);
        },
        JsonView::Array(items) => {
            lemma_located_item(items, 0, path);
        },
        JsonView::Object(fields) => {
            lemma_located_member(fields, 0, path);
            let i = choose|i: int|
                0 <= i < fields.len() && (if has_template_token((#[trigger] fields[i]).0) {
                    found == path + "."@ + fields[i].0
                } else {
                    template_path(fields[i].1, path + "."@ + fields[i].0) == Some(found)
                }) && forall|j: int|
                    0 <= j < i ==> !has_template_token((#[trigger] fields[j]).0)
                        && !mentions_template(fields[j].1);
            law_templates_stand_in_braces(fields[i].0);
            assert forall|j: int| 0 <= j < i implies !has_braces((#[trigger] fields[j]).0)
                && !mentions_template(fields[j].1) by {
                law_templates_stand_in_braces(fields[j].0);
            }
        },
        _ => {},
    }
}

} // verus!
