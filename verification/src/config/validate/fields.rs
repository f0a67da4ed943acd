//! Rules for single text fields.

use vstd::prelude::*;
use vstd::string::*;
use crate::error::{invalid, verdict, Complaint, ForgeError};
use crate::numeral::{decimal, parse_unsigned, to_decimal, unsigned_value};
use crate::text::{
    all_have_class, all_in, before_suffix, begins_with, blank, byte_len, debug_form, ends_in,
    ends_with, find_part, first_is, has_class, in_class, is_blank, join2, join4, occurs_at, quoted,
    same_text, split, split_on, starts_with, starts_with_char, strip_suffix, texts, trim, trimmed,
    utf8_len, CharClass,
};

verus! {

// ---------------------------------------------------------------
// Required text
// ---------------------------------------------------------------

/// What is wrong with a required text.
pub open spec fn non_blank_complaint(value: Seq<char>, context: Seq<char>) -> Complaint {
    if is_blank(value) {
        Some(context + ": must not be blank"@)
    } else {
        None
    }
}

/// Check a required text field.
pub fn check_non_blank(value: &str, context: &str) -> (r: Result<(), ForgeError>)
    ensures
        verdict(r, non_blank_complaint(value@, context@)),
{
    if blank(value) {
        return invalid(join2(context, ": must not be blank"));
    }
    Ok(())
}

/// What is wrong with a text that a tool must not read as an option.
pub open spec fn option_like_complaint(value: Seq<char>, context: Seq<char>) -> Complaint {
    if first_is(value, '-') {
        Some(context + ": must not start with '-'"@)
    } else {
        None
    }
}

/// Reject a value that a tool would parse as an option rather than a
/// positional argument.
pub fn check_not_option_like(value: &str, context: &str) -> (r: Result<(), ForgeError>)
    ensures
        verdict(r, option_like_complaint(value@, context@)),
{
    if starts_with_char(value, '-') {
        return invalid(join2(context, ": must not start with '-'"));
    }
    Ok(())
}

// ---------------------------------------------------------------
// Durations
// ---------------------------------------------------------------

/// Upper bound for any configured duration, in seconds: one day.
pub const MAX_DURATION_SECS: u64 = 86_400;

/// Upper bound for any configured duration, in milliseconds.
pub const MAX_DURATION_MILLIS: u64 = 86_400_000;

/// What is wrong with the numeral of a duration, given the largest value and
/// the unit.
pub open spec fn duration_amount_complaint(
    digits: Seq<char>,
    max: nat,
    unit: Seq<char>,
    context: Seq<char>,
) -> Complaint {
    match unsigned_value(digits, u64::MAX as nat) {
        None => Some(context + ": expected a positive integer"@),
        Some(n) => if n == 0 {
            Some(context + ": expected a positive integer"@)
        } else if n > max {
            Some(context + ": must not exceed "@ + decimal(max) + unit)
        } else {
            None
        },
    }
}

/// What is wrong with a duration: a positive number of milliseconds (`ms`) or
/// seconds (`s`) of at most one day.
pub open spec fn duration_complaint(value: Seq<char>, context: Seq<char>) -> Complaint {
    match before_suffix(value, "ms"@) {
        Some(digits) => duration_amount_complaint(
            digits,
            MAX_DURATION_MILLIS as nat,
            "ms"@,
            context,
        ),
        None => match before_suffix(value, "s"@) {
            Some(digits) => duration_amount_complaint(
                digits,
                MAX_DURATION_SECS as nat,
                "s"@,
                context,
            ),
            None => Some(
                context + ": "@ + debug_form(value) + " must end in \"s\" or \"ms\""@,
            ),
        },
    }
}

fn check_duration_amount(digits: &str, max: u64, unit: &str, context: &str) -> (r: Result<
    (),
    ForgeError,
>)
    ensures
        verdict(r, duration_amount_complaint(digits@, max as nat, unit@, context@)),
{
    let parsed = match parse_unsigned(digits, u64::MAX) {
        Some(n) => n,
        None => {
            return invalid(join2(context, ": expected a positive integer"));
        },
    };
    if parsed == 0 {
        return invalid(join2(context, ": expected a positive integer"));
    }
    if parsed > max {
        return invalid(join4(context, ": must not exceed ", &to_decimal(max), unit));
    }
    Ok(())
}

/// Validate a duration string (`"Ns"` or `"Nms"` where N is a positive integer).
pub fn check_duration_string(value: &str, context: &str) -> (r: Result<(), ForgeError>)
    ensures
        verdict(r, duration_complaint(value@, context@)),
{
    if let Some(digits) = strip_suffix(value, "ms") {
        return check_duration_amount(digits, MAX_DURATION_MILLIS, "ms", context);
    }
    if let Some(digits) = strip_suffix(value, "s") {
        return check_duration_amount(digits, MAX_DURATION_SECS, "s", context);
    }
    invalid(join4(context, ": ", &quoted(value), " must end in \"s\" or \"ms\""))
}

// ---------------------------------------------------------------
// Paths
// ---------------------------------------------------------------

/// True when a path is absolute or climbs out of its root.
pub open spec fn escapes_root(path: Seq<char>) -> bool {
    first_is(path, '/') || split_on(path, '/').contains(".."@)
}

/// What is wrong with a path that must stay under the configuration root.
pub open spec fn relative_path_complaint(path: Seq<char>, context: Seq<char>) -> Complaint {
    if is_blank(path) {
        Some(context + ": must not be blank"@)
    } else if escapes_root(path) {
        Some(
            context + ": path must be relative and must not escape the config root"@,
        )
    } else {
        None
    }
}

fn has_parent_part(path: &str) -> (r: bool)
    ensures
        r == split_on(path@, '/').contains(".."@),
{
    let parts = split(path, '/');
    let mut i: usize = 0;
    while i < parts.len()
        invariant
            texts(parts@) == split_on(path@, '/'),
            i <= parts@.len(),
            forall|j: int| 0 <= j < i ==> #[trigger] split_on(path@, '/')[j] != ".."@,
        decreases parts.len() - i,
    {
        assert(texts(parts@)[i as int] == parts@[i as int]@);
        if same_text(&parts[i], "..") {
            return true;
        }
        i += 1;
    }
    false
}

/// Validate a path that must stay relative to the config root.
pub fn check_relative_path(path: &str, context: &str) -> (r: Result<(), ForgeError>)
    ensures
        verdict(r, relative_path_complaint(path@, context@)),
{
    check_non_blank(path, context)?;
    if starts_with_char(path, '/') || has_parent_part(path) {
        return invalid(
            join2(context, ": path must be relative and must not escape the config root"),
        );
    }
    Ok(())
}

// ---------------------------------------------------------------
// Templates and digests
// ---------------------------------------------------------------

/// True when a `{{` stands in a text with a `}}` behind it.
pub open spec fn has_template_token(value: Seq<char>) -> bool {
    exists|i: int, j: int|
        i + 2 <= j && #[trigger] occurs_at(value, "{{"@, i) && #[trigger] occurs_at(value, "}}"@, j)
}

/// True when a string contains a `{{` followed by a `}}`.
pub fn contains_template_token(value: &str) -> (r: bool)
    ensures
        r == has_template_token(value@),
{
    proof {
        reveal_strlit("{{");
        reveal_strlit("}}");
    }
    match find_part(value, "{{") {
        Some(start) => {
            let n = value.unicode_len();
            let rest = value.substring_char(start, n);
            let found = find_part(rest, "}}");
            proof {
                assert(rest@ == value@.subrange(start as int, n as int));
                if let Some(at) = found {
                    let j = start + at;
                    assert(value@.subrange(j, j + 2) =~= rest@.subrange(at as int, at + 2));
                    assert(occurs_at(value@, "}}"@, j));
                    if at < 2 {
                        assert(value@.subrange(start as int, start + 2)[0] == '{');
                        assert(value@.subrange(start as int, start + 2)[1] == '{');
                        assert(rest@.subrange(at as int, at + 2)[0] == '}');
                        assert(rest@[at as int] == '}');
                        assert(rest@[0] == value@[start as int]);
                        assert(rest@[1] == value@[start + 1]);
                        assert(false);
                    }
                    assert(start + 2 <= j && occurs_at(value@, "{{"@, start as int) && occurs_at(
                        value@,
                        "}}"@,
                        j,
                    ));
                } else if has_template_token(value@) {
                    let (i, j) = choose|i: int, j: int|
                        i + 2 <= j && #[trigger] occurs_at(value@, "{{"@, i) && #[trigger] occurs_at(
                            value@,
                            "}}"@,
                            j,
                        );
                    assert(start <= i);
                    assert(rest@.subrange(j - start, j - start + 2) =~= value@.subrange(j, j + 2));
                    assert(occurs_at(rest@, "}}"@, j - start));
                }
            }
            found.is_some()
        },
        None => false,
    }
}

/// True when a text is one template expression, apart from white space around
/// it: it opens with `{{`, closes with `}}` and opens no second one.
pub open spec fn full_field_template(value: Seq<char>) -> bool {
    let body = trim(value);
    &&& begins_with(body, "{{"@)
    &&& ends_in(body, "}}"@)
    &&& forall|i: int| i >= 2 ==> !#[trigger] occurs_at(body, "{{"@, i)
}

/// True when `value` is a single `{{ ... }}` template expression.
pub fn is_full_field_template(value: &str) -> (r: bool)
    ensures
        r == full_field_template(value@),
{
    let body = trimmed(value);
    if !starts_with(body, "{{") || !ends_with(body, "}}") {
        return false;
    }
    proof {
        reveal_strlit("{{");
    }
    let n = body.unicode_len();
    let rest = body.substring_char(2, n);
    let found = find_part(rest, "{{");
    proof {
        assert(rest@ == body@.subrange(2, n as int));
        if let Some(at) = found {
            assert(body@.subrange(at + 2, at + 4) =~= rest@.subrange(at as int, at + 2));
            assert(occurs_at(body@, "{{"@, at + 2));
        } else {
            assert forall|i: int| i >= 2 implies !#[trigger] occurs_at(body@, "{{"@, i) by {
                if occurs_at(body@, "{{"@, i) {
                    assert(rest@.subrange(i - 2, i) =~= body@.subrange(i, i + 2));
                    assert(occurs_at(rest@, "{{"@, i - 2));
                }
            }
        }
    }
    found.is_none()
}

/// What is wrong with a SHA-256 digest.
pub open spec fn sha256_complaint(value: Seq<char>, context: Seq<char>) -> Complaint {
    if full_field_template(value) || (byte_len(value) == 64 && all_in(CharClass::Hex, value)) {
        None
    } else {
        Some(context + ": expected a 64-character SHA-256 hex digest"@)
    }
}

/// Validate a SHA-256 hex digest.
///
/// Full-field template expressions are allowed; they must resolve to a
/// 64-character hex digest at apply time before content verification.
pub fn check_sha256(value: &str, context: &str) -> (r: Result<(), ForgeError>)
    ensures
        verdict(r, sha256_complaint(value@, context@)),
{
    if is_full_field_template(value) {
        return Ok(());
    }
    if utf8_len(value) != 64 || !all_have_class(CharClass::Hex, value) {
        return invalid(join2(context, ": expected a 64-character SHA-256 hex digest"));
    }
    Ok(())
}

// ---------------------------------------------------------------
// Identifiers
// ---------------------------------------------------------------

/// True when a text has the form `[A-Za-z_][A-Za-z0-9_]*`.
pub open spec fn shell_safe_ident(key: Seq<char>) -> bool {
    key.len() > 0 && in_class(CharClass::IdentStart, key[0]) && all_in(CharClass::IdentRest, key)
}

/// Check whether a string matches shell-safe identifier `[A-Za-z_][A-Za-z0-9_]*`.
pub fn is_shell_safe_ident(key: &str) -> (r: bool)
    ensures
        r == shell_safe_ident(key@),
{
    if key.unicode_len() == 0 {
        return false;
    }
    if !has_class(CharClass::IdentStart, key.get_char(0)) {
        return false;
    }
    all_have_class(CharClass::IdentRest, key)
}

} // verus!
