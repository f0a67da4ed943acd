//! Rules for names: DNS labels, DNS zones and container resource names.

use vstd::prelude::*;
use vstd::string::*;
use crate::error::{invalid, verdict, Complaint, ForgeError};
use crate::text::{
    all_have_class, all_in, byte_len, debug_form, ends_with_char, first_is, has_char, join2, join4,
    last_is, quoted, starts_with_char, utf8_len, CharClass,
};

verus! {

// ---------------------------------------------------------------
// DNS labels
// ---------------------------------------------------------------

/// True when a text is a DNS label: 1 to 63 lower-case letters, digits and
/// hyphens, with no hyphen at either end.
pub open spec fn is_dns_label(name: Seq<char>) -> bool {
    &&& 0 < name.len()
    &&& byte_len(name) <= 63
    &&& all_in(CharClass::Label, name)
    &&& !first_is(name, '-')
    &&& !last_is(name, '-')
}

/// What is wrong with a text as a DNS label.
pub open spec fn dns_label_complaint(name: Seq<char>, context: Seq<char>) -> Complaint {
    if name.len() == 0 {
        Some(context + ": name must not be empty"@)
    } else {
        dns_label_rules_complaint(name, context)
    }
}

/// What is wrong with the length, characters and ends of a label.
pub open spec fn dns_label_rules_complaint(name: Seq<char>, context: Seq<char>) -> Complaint {
    if byte_len(name) > 63 {
        Some(context + ": "@ + debug_form(name) + " exceeds 63 characters"@)
    } else {
        dns_label_chars_complaint(name, context)
    }
}

/// What is wrong with the characters and ends of a label.
pub open spec fn dns_label_chars_complaint(name: Seq<char>, context: Seq<char>) -> Complaint {
    if !all_in(CharClass::Label, name) {
        Some(
            context + ": "@ + debug_form(name)
                + " contains invalid characters (allowed: lowercase alphanumeric and hyphens)"@,
        )
    } else {
        dns_label_edges_complaint(name, context)
    }
}

/// What is wrong with the ends of a label.
pub open spec fn dns_label_edges_complaint(name: Seq<char>, context: Seq<char>) -> Complaint {
    if first_is(name, '-') || last_is(name, '-') {
        Some(context + ": "@ + debug_form(name) + " must not start or end with a hyphen"@)
    } else {
        None
    }
}

/// A text is accepted as a label exactly when it is one.
pub proof fn law_accepted_labels_are_labels(name: Seq<char>, context: Seq<char>)
    ensures
        dns_label_complaint(name, context) is None <==> is_dns_label(name),
{
}

/// Validate that a name is a valid DNS label.
pub fn check_dns_label(name: &str, context: &str) -> (r: Result<(), ForgeError>)
    ensures
        verdict(r, dns_label_complaint(name@, context@)),
{
    if name.unicode_len() == 0 {
        return invalid(join2(context, ": name must not be empty"));
    }
    validate_dns_label_rules(name, context)
}

/// Check DNS label character and length rules.
pub fn validate_dns_label_rules(name: &str, context: &str) -> (r: Result<(), ForgeError>)
    ensures
        verdict(r, dns_label_rules_complaint(name@, context@)),
{
    if utf8_len(name) > 63 {
        return invalid(join4(context, ": ", &quoted(name), " exceeds 63 characters"));
    }
    check_dns_label_chars(name, context)
}

/// Verify characters and leading/trailing constraints.
pub fn check_dns_label_chars(name: &str, context: &str) -> (r: Result<(), ForgeError>)
    ensures
        verdict(r, dns_label_chars_complaint(name@, context@)),
{
    if !all_have_class(CharClass::Label, name) {
        return invalid(
            join4(
                context,
                ": ",
                &quoted(name),
                " contains invalid characters (allowed: lowercase alphanumeric and hyphens)",
            ),
        );
    }
    check_dns_label_edges(name, context)
}

/// DNS labels must not start or end with a hyphen.
pub fn check_dns_label_edges(name: &str, context: &str) -> (r: Result<(), ForgeError>)
    ensures
        verdict(r, dns_label_edges_complaint(name@, context@)),
{
    if starts_with_char(name, '-') || ends_with_char(name, '-') {
        return invalid(
            join4(context, ": ", &quoted(name), " must not start or end with a hyphen"),
        );
    }
    Ok(())
}

// ---------------------------------------------------------------
// Container resource names
// ---------------------------------------------------------------

/// True when a text can name a Docker or Podman resource.
pub open spec fn is_docker_name(name: Seq<char>) -> bool {
    0 < name.len() && byte_len(name) <= 128 && all_in(CharClass::Container, name)
}

/// What is wrong with a text as a Docker or Podman resource name.
pub open spec fn docker_name_complaint(name: Seq<char>, context: Seq<char>) -> Complaint {
    if name.len() == 0 || byte_len(name) > 128 {
        Some(context + ": "@ + debug_form(name) + " must be 1\u{2013}128 characters"@)
    } else if !all_in(CharClass::Container, name) {
        Some(
            context + ": "@ + debug_form(name)
                + " contains characters unsafe for Docker/Podman"@,
        )
    } else {
        None
    }
}

/// A text is accepted as a resource name exactly when it is one.
pub proof fn law_accepted_names_are_resource_names(name: Seq<char>, context: Seq<char>)
    ensures
        docker_name_complaint(name, context) is None <==> is_docker_name(name),
{
}

/// Validate a Docker/Podman resource name.
pub fn check_docker_name(name: &str, context: &str) -> (r: Result<(), ForgeError>)
    ensures
        verdict(r, docker_name_complaint(name@, context@)),
{
    if name.unicode_len() == 0 || utf8_len(name) > 128 {
        return invalid(
            join4(context, ": ", &quoted(name), " must be 1\u{2013}128 characters"),
        );
    }
    if !all_have_class(CharClass::Container, name) {
        return invalid(
            join4(context, ": ", &quoted(name), " contains characters unsafe for Docker/Podman"),
        );
    }
    Ok(())
}

// ---------------------------------------------------------------
// DNS zones
// ---------------------------------------------------------------

/// True when a text is a DNS zone: 1 to 253 lower-case letters, digits,
/// hyphens and dots, at least one of them a dot, with neither a dot nor a
/// hyphen at either end.
pub open spec fn is_dns_zone(zone: Seq<char>) -> bool {
    &&& 0 < zone.len()
    &&& byte_len(zone) <= 253
    &&& all_in(CharClass::Zone, zone)
    &&& !first_is(zone, '.') && !first_is(zone, '-') && !last_is(zone, '.') && !last_is(zone, '-')
    &&& zone.contains('.')
}

/// What is wrong with a text as a DNS zone.
pub open spec fn dns_zone_complaint(zone: Seq<char>) -> Complaint {
    if zone.len() == 0 || byte_len(zone) > 253 {
        Some("dnsZone must be 1-253 characters"@)
    } else if !all_in(CharClass::Zone, zone) {
        Some("dnsZone must contain only lowercase alphanumeric, hyphens, and dots"@)
    } else if first_is(zone, '.') || first_is(zone, '-') || last_is(zone, '.') || last_is(
        zone,
        '-',
    ) {
        Some("dnsZone must not start or end with a dot or hyphen"@)
    } else if !zone.contains('.') {
        Some("dnsZone must contain at least one dot"@)
    } else {
        None
    }
}

/// A text is accepted as a zone exactly when it is one.
pub proof fn law_accepted_zones_are_zones(zone: Seq<char>)
    ensures
        dns_zone_complaint(zone) is None <==> is_dns_zone(zone),
{
}

/// DNS zone format rules: lowercase alphanumeric/hyphens/dots, at least one dot.
pub fn validate_dns_zone_rules(zone: &str) -> (r: Result<(), ForgeError>)
    ensures
        verdict(r, dns_zone_complaint(zone@)),
{
    if zone.unicode_len() == 0 || utf8_len(zone) > 253 {
        return invalid("dnsZone must be 1-253 characters".to_owned());
    }
    if !all_have_class(CharClass::Zone, zone) {
        return invalid(
            "dnsZone must contain only lowercase alphanumeric, hyphens, and dots".to_owned(),
        );
    }
    if starts_with_char(zone, '.') || starts_with_char(zone, '-') || ends_with_char(zone, '.')
        || ends_with_char(zone, '-') {
        return invalid("dnsZone must not start or end with a dot or hyphen".to_owned());
    }
    if !has_char(zone, '.') {
        return invalid("dnsZone must contain at least one dot".to_owned());
    }
    Ok(())
}

} // verus!
