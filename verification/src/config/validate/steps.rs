//! Rules for the steps of a deployment stack.

use vstd::prelude::*;
use vstd::string::*;
use crate::config::StepSpec;
use crate::config::validate::fields::{
    check_duration_string, check_non_blank, check_not_option_like, check_relative_path,
    check_sha256, duration_complaint, is_shell_safe_ident, non_blank_complaint,
    option_like_complaint, relative_path_complaint, sha256_complaint, shell_safe_ident,
};
use crate::config::validate::names::{
    check_dns_label, dns_label_complaint, dns_zone_complaint, validate_dns_zone_rules,
};
use crate::error::{first_complaint, invalid, verdict, Complaint, ForgeError};
use crate::ip::{ipv4_value, parse_ipv4};
use crate::numeral::{decimal, parse_unsigned, to_decimal, unsigned_value};
use crate::strmap::StrMap;
use crate::text::{
    all_have_class, all_in, begins_with, borrow_text, byte_len, chars_of, debug_form, has_char,
    join2, join3, join4, opt_str, opt_text, quoted, split, split_on, starts_with, texts, utf8_len,
    CharClass,
};

verus! {

/// The opening words of a complaint about a stack.
pub open spec fn stack_context(stack: Seq<char>, what: Seq<char>) -> Seq<char> {
    "stack "@ + debug_form(stack) + ": "@ + what
}

/// Renders the opening words of a complaint about a stack.
pub(crate) fn in_stack(stack_name: &str, what: &str) -> (r: String)
    ensures
        r@ == stack_context(stack_name@, what@),
{
    join4("stack ", &quoted(stack_name), ": ", what)
}

// ---------------------------------------------------------------
// Named resources
// ---------------------------------------------------------------

/// What is wrong with an optional namespace.
pub open spec fn namespace_complaint(stack: Seq<char>, namespace: Option<Seq<char>>) -> Complaint {
    match namespace {
        Some(ns) => dns_label_complaint(ns, stack_context(stack, "namespace"@)),
        None => None,
    }
}

/// Validate an optional namespace.
pub fn check_optional_namespace(stack_name: &str, namespace: Option<&str>) -> (r: Result<
    (),
    ForgeError,
>)
    ensures
        verdict(r, namespace_complaint(stack_name@, opt_str(namespace))),
{
    if let Some(ns) = namespace {
        check_dns_label(ns, &in_stack(stack_name, "namespace"))?;
    }
    Ok(())
}

/// What is wrong with a resource that has a name and a namespace.
pub open spec fn named_resource_complaint(
    stack: Seq<char>,
    kind: Seq<char>,
    name: Seq<char>,
    namespace: Option<Seq<char>>,
) -> Complaint {
    first_complaint(
        dns_label_complaint(name, stack_context(stack, kind + " name"@)),
        namespace_complaint(stack, namespace),
    )
}

/// Validate a resource step with a Kubernetes-style name.
pub fn check_named_resource_step(
    stack_name: &str,
    kind: &str,
    name: &str,
    namespace: Option<&str>,
) -> (r: Result<(), ForgeError>)
    ensures
        verdict(r, named_resource_complaint(stack_name@, kind@, name@, opt_str(namespace))),
{
    check_dns_label(name, &in_stack(stack_name, &join2(kind, " name")))?;
    check_optional_namespace(stack_name, namespace)
}

/// What is wrong with a workload.
pub open spec fn named_workload_complaint(
    stack: Seq<char>,
    kind: Seq<char>,
    name: Seq<char>,
    image: Seq<char>,
    namespace: Option<Seq<char>>,
) -> Complaint {
    first_complaint(
        named_resource_complaint(stack, kind, name, namespace),
        non_blank_complaint(image, stack_context(stack, kind + " image"@)),
    )
}

/// Validate a workload step that includes an image.
pub fn check_named_workload_step(
    stack_name: &str,
    kind: &str,
    name: &str,
    image: &str,
    namespace: Option<&str>,
) -> (r: Result<(), ForgeError>)
    ensures
        verdict(
            r,
            named_workload_complaint(stack_name@, kind@, name@, image@, opt_str(namespace)),
        ),
{
    check_named_resource_step(stack_name, kind, name, namespace)?;
    check_non_blank(image, &in_stack(stack_name, &join2(kind, " image")))
}

/// What is wrong with a generated service.
pub open spec fn service_step_complaint(
    stack: Seq<char>,
    name: Seq<char>,
    port: u16,
    namespace: Option<Seq<char>>,
) -> Complaint {
    first_complaint(
        named_resource_complaint(stack, "service"@, name, namespace),
        if port == 0 {
            Some(stack_context(stack, "service port must not be zero"@))
        } else {
            None
        },
    )
}

/// Validate a generated Service step.
pub fn check_service_step(
    stack_name: &str,
    name: &str,
    port: u16,
    namespace: Option<&str>,
) -> (r: Result<(), ForgeError>)
    ensures
        verdict(r, service_step_complaint(stack_name@, name@, port, opt_str(namespace))),
{
    check_named_resource_step(stack_name, "service", name, namespace)?;
    if port == 0 {
        return invalid(in_stack(stack_name, "service port must not be zero"));
    }
    Ok(())
}

// ---------------------------------------------------------------
// Files and charts
// ---------------------------------------------------------------

/// What is wrong with a remote manifest.
pub open spec fn url_step_complaint(
    stack: Seq<char>,
    url: Seq<char>,
    sha256: Seq<char>,
) -> Complaint {
    first_complaint(
        non_blank_complaint(url, stack_context(stack, "url"@)),
        if !begins_with(url, "https://"@) {
            Some(stack_context(stack, "remote manifest URLs must use https"@))
        } else {
            sha256_complaint(sha256, stack_context(stack, "sha256"@))
        },
    )
}

/// Validate a remote URL manifest step.
pub fn check_url_step(stack_name: &str, url: &str, sha256: &str) -> (r: Result<(), ForgeError>)
    ensures
        verdict(r, url_step_complaint(stack_name@, url@, sha256@)),
{
    check_non_blank(url, &in_stack(stack_name, "url"))?;
    if !starts_with(url, "https://") {
        return invalid(in_stack(stack_name, "remote manifest URLs must use https"));
    }
    check_sha256(sha256, &in_stack(stack_name, "sha256"))
}

/// What is wrong with the path of a manifest, kustomization or template.
pub open spec fn step_path_complaint(stack: Seq<char>, path: Seq<char>) -> Complaint {
    relative_path_complaint(path, stack_context(stack, "path"@))
}

/// Validate a manifest or kustomize step path.
pub fn check_step_path(stack_name: &str, path: &str) -> (r: Result<(), ForgeError>)
    ensures
        verdict(r, step_path_complaint(stack_name@, path@)),
{
    check_relative_path(path, &in_stack(stack_name, "path"))
}

/// What is wrong with a template that is rendered into a file.
pub open spec fn template_file_complaint(
    stack: Seq<char>,
    source: Seq<char>,
    target: Seq<char>,
) -> Complaint {
    first_complaint(
        relative_path_complaint(source, stack_context(stack, "template-file source"@)),
        relative_path_complaint(target, stack_context(stack, "template-file target"@)),
    )
}

/// Validate a template-file step.
pub fn check_template_file_step(stack_name: &str, source: &str, target: &str) -> (r: Result<
    (),
    ForgeError,
>)
    ensures
        verdict(r, template_file_complaint(stack_name@, source@, target@)),
{
    check_relative_path(source, &in_stack(stack_name, "template-file source"))?;
    check_relative_path(target, &in_stack(stack_name, "template-file target"))
}

/// What is wrong with a Helm step; nothing, if the step is of another kind.
pub open spec fn helm_complaint(stack: Seq<char>, step: StepSpec) -> Complaint {
    match step {
        StepSpec::Helm { release, chart, version, namespace, .. } => first_complaint(
            dns_label_complaint(release@, stack_context(stack, "helm release"@)),
            first_complaint(
                non_blank_complaint(chart@, stack_context(stack, "helm chart"@)),
                first_complaint(
                    option_like_complaint(chart@, stack_context(stack, "helm chart"@)),
                    first_complaint(
                        non_blank_complaint(version@, stack_context(stack, "helm version"@)),
                        first_complaint(
                            option_like_complaint(version@, stack_context(stack, "helm version"@)),
                            namespace_complaint(stack, opt_text(namespace)),
                        ),
                    ),
                ),
            ),
        ),
        _ => None,
    }
}

/// Validate a Helm step.
pub fn check_helm_step(stack_name: &str, step: &StepSpec) -> (r: Result<(), ForgeError>)
    ensures
        verdict(r, helm_complaint(stack_name@, *step)),
{
    if let StepSpec::Helm { release, chart, version, namespace, .. } = step {
        check_dns_label(release, &in_stack(stack_name, "helm release"))?;
        check_non_blank(chart, &in_stack(stack_name, "helm chart"))?;
        check_not_option_like(chart, &in_stack(stack_name, "helm chart"))?;
        check_non_blank(version, &in_stack(stack_name, "helm version"))?;
        check_not_option_like(version, &in_stack(stack_name, "helm version"))?;
        return check_optional_namespace(stack_name, borrow_text(namespace));
    }
    Ok(())
}

// ---------------------------------------------------------------
// Waiting and capturing
// ---------------------------------------------------------------

/// What is wrong with a wait step.
pub open spec fn wait_complaint(
    stack: Seq<char>,
    resource: Seq<char>,
    condition: Seq<char>,
    timeout: Seq<char>,
) -> Complaint {
    first_complaint(
        non_blank_complaint(resource, stack_context(stack, "wait resource"@)),
        first_complaint(
            option_like_complaint(resource, stack_context(stack, "wait resource"@)),
            first_complaint(
                non_blank_complaint(condition, stack_context(stack, "wait condition"@)),
                duration_complaint(timeout, stack_context(stack, "wait timeout"@)),
            ),
        ),
    )
}

/// Validate a wait step.
pub fn check_wait_step(stack_name: &str, resource: &str, condition: &str, timeout: &str) -> (r:
    Result<(), ForgeError>)
    ensures
        verdict(r, wait_complaint(stack_name@, resource@, condition@, timeout@)),
{
    check_non_blank(resource, &in_stack(stack_name, "wait resource"))?;
    check_not_option_like(resource, &in_stack(stack_name, "wait resource"))?;
    check_non_blank(condition, &in_stack(stack_name, "wait condition"))?;
    check_duration_string(timeout, &in_stack(stack_name, "wait timeout"))
}

/// What is wrong with a capture step; nothing, if the step is of another kind.
pub open spec fn capture_complaint(stack: Seq<char>, step: StepSpec) -> Complaint {
    match step {
        StepSpec::Capture { resource, namespace, jsonpath, key, timeout, interval } =>
            first_complaint(
            non_blank_complaint(resource@, stack_context(stack, "capture resource"@)),
            first_complaint(
                option_like_complaint(resource@, stack_context(stack, "capture resource"@)),
                first_complaint(
                    non_blank_complaint(jsonpath@, stack_context(stack, "capture jsonpath"@)),
                    first_complaint(
                        non_blank_complaint(key@, stack_context(stack, "capture key"@)),
                        first_complaint(
                            duration_complaint(timeout@, stack_context(stack, "capture timeout"@)),
                            first_complaint(
                                duration_complaint(
                                    interval@,
                                    stack_context(stack, "capture interval"@),
                                ),
                                if key@.contains('.') {
                                    Some(
                                        stack_context(
                                            stack,
                                            "capture key must not contain dots"@,
                                        ),
                                    )
                                } else {
                                    namespace_complaint(stack, opt_text(namespace))
                                },
                            ),
                        ),
                    ),
                ),
            ),
        ),
        _ => None,
    }
}

/// Validate a capture step.
pub fn check_capture_step(stack_name: &str, step: &StepSpec) -> (r: Result<(), ForgeError>)
    ensures
        verdict(r, capture_complaint(stack_name@, *step)),
{
    if let StepSpec::Capture { resource, namespace, jsonpath, key, timeout, interval } = step {
        check_non_blank(resource, &in_stack(stack_name, "capture resource"))?;
        check_not_option_like(resource, &in_stack(stack_name, "capture resource"))?;
        check_non_blank(jsonpath, &in_stack(stack_name, "capture jsonpath"))?;
        check_non_blank(key, &in_stack(stack_name, "capture key"))?;
        check_duration_string(timeout, &in_stack(stack_name, "capture timeout"))?;
        check_duration_string(interval, &in_stack(stack_name, "capture interval"))?;
        if has_char(key, '.') {
            return invalid(in_stack(stack_name, "capture key must not contain dots"));
        }
        return check_optional_namespace(stack_name, borrow_text(namespace));
    }
    Ok(())
}

// ---------------------------------------------------------------
// Commands
// ---------------------------------------------------------------

/// What is wrong with the command words from position `i` on.
pub open spec fn exec_args_complaint(stack: Seq<char>, command: Seq<String>, i: int) -> Complaint
    decreases command.len() - i,
{
    if i >= command.len() {
        None
    } else {
        first_complaint(
            non_blank_complaint(command[i]@, stack_context(stack, "exec command argument"@)),
            exec_args_complaint(stack, command, i + 1),
        )
    }
}

/// What is wrong with the name of an environment variable.
pub open spec fn exec_env_key_complaint(stack: Seq<char>, key: Seq<char>) -> Complaint {
    first_complaint(
        non_blank_complaint(key, stack_context(stack, "exec env key"@)),
        if !shell_safe_ident(key) {
            Some(
                stack_context(
                    stack,
                    "exec env key "@ + debug_form(key) + " is not a valid identifier"@,
                ),
            )
        } else {
            None
        },
    )
}

/// What is wrong with the environment entries from position `i` on.
pub open spec fn exec_env_complaint(
    stack: Seq<char>,
    env: Seq<(Seq<char>, String)>,
    i: int,
) -> Complaint
    decreases env.len() - i,
{
    if i >= env.len() {
        None
    } else {
        first_complaint(
            exec_env_key_complaint(stack, env[i].0),
            first_complaint(
                non_blank_complaint(
                    env[i].1@,
                    stack_context(stack, "exec env value for "@ + debug_form(env[i].0)),
                ),
                exec_env_complaint(stack, env, i + 1),
            ),
        )
    }
}

/// What is wrong with an exec step.
pub open spec fn exec_complaint(
    stack: Seq<char>,
    command: Seq<String>,
    env: Seq<(Seq<char>, String)>,
) -> Complaint {
    if command.len() == 0 {
        Some(stack_context(stack, "exec command must not be empty"@))
    } else {
        first_complaint(
            exec_args_complaint(stack, command, 0),
            exec_env_complaint(stack, env, 0),
        )
    }
}

/// Validate an exec environment variable name.
pub fn check_exec_env_key(stack_name: &str, key: &str) -> (r: Result<(), ForgeError>)
    ensures
        verdict(r, exec_env_key_complaint(stack_name@, key@)),
{
    check_non_blank(key, &in_stack(stack_name, "exec env key"))?;
    if !is_shell_safe_ident(key) {
        return invalid(
            in_stack(
                stack_name,
                &join3("exec env key ", &quoted(key), " is not a valid identifier"),
            ),
        );
    }
    Ok(())
}

/// Validate an exec step.
pub fn check_exec_step(stack_name: &str, command: &Vec<String>, env: &StrMap<String>) -> (r: Result<
    (),
    ForgeError,
>)
    ensures
        verdict(r, exec_complaint(stack_name@, command@, env@)),
{
    if command.len() == 0 {
        return invalid(in_stack(stack_name, "exec command must not be empty"));
    }
    let mut i: usize = 0;
    while i < command.len()
        invariant
            i <= command@.len(),
            exec_args_complaint(stack_name@, command@, 0) == exec_args_complaint(
                stack_name@,
                command@,
                i as int,
            ),
            command@.len() > 0,
        decreases command.len() - i,
    {
        check_non_blank(&command[i], &in_stack(stack_name, "exec command argument"))?;
        i += 1;
    }
    let mut j: usize = 0;
    while j < env.len()
        invariant
            j <= env@.len(),
            exec_args_complaint(stack_name@, command@, 0) is None,
            exec_env_complaint(stack_name@, env@, 0) == exec_env_complaint(
                stack_name@,
                env@,
                j as int,
            ),
            command@.len() > 0,
        decreases env@.len() - j,
    {
        let key = env.key_at(j);
        check_exec_env_key(stack_name, key)?;
        check_non_blank(
            env.value_at(j),
            &in_stack(stack_name, &join2("exec env value for ", &quoted(key))),
        )?;
        j += 1;
    }
    Ok(())
}

// ---------------------------------------------------------------
// DNS forwarding
// ---------------------------------------------------------------

/// The last position of a character in a text.
pub open spec fn last_position(s: Seq<char>, c: char) -> Option<int>
    decreases s.len(),
{
    if s.len() == 0 {
        None
    } else if s.last() == c {
        Some(s.len() - 1)
    } else {
        last_position(s.drop_last(), c)
    }
}

/// The host and the port of an upstream: what stands before and behind the
/// last colon, where digits and nothing else stand behind it.
pub open spec fn upstream_parts(value: Seq<char>) -> (Seq<char>, Option<Seq<char>>) {
    match last_position(value, ':') {
        Some(at) => {
            let after = value.skip(at + 1);
            if after.len() > 0 && all_in(CharClass::Digit, after) {
                (value.take(at), Some(after))
            } else {
                (value, None)
            }
        },
        None => (value, None),
    }
}

fn find_last(s: &str, c: char) -> (r: Option<usize>)
    ensures
        match last_position(s@, c) {
            Some(at) => r matches Some(i) && i == at && i < s@.len(),
            None => r is None,
        },
{
    let chars = chars_of(s);
    let mut n: usize = chars.len();
    assert(s@.take(n as int) =~= s@);
    while n > 0
        invariant
            chars@ == s@,
            n <= chars@.len(),
            last_position(s@, c) == last_position(s@.take(n as int), c),
        decreases n,
    {
        assert(s@.take(n as int).last() == chars@[n - 1]);
        assert(s@.take(n as int).drop_last() =~= s@.take(n - 1));
        if chars[n - 1] == c {
            return Some(n - 1);
        }
        n -= 1;
    }
    None
}

/// Split an upstream into host and optional port on the last colon.
pub fn split_upstream_host_port<'a>(value: &'a str) -> (r: (&'a str, Option<&'a str>))
    ensures
        r.0@ == upstream_parts(value@).0,
        opt_str(r.1) == upstream_parts(value@).1,
{
    if let Some(pos) = find_last(value, ':') {
        let n = value.unicode_len();
        let after = value.substring_char(pos + 1, n);
        assert(after@ =~= value@.skip(pos + 1));
        if after.unicode_len() > 0 && all_have_class(CharClass::Digit, after) {
            let host = value.substring_char(0, pos);
            assert(host@ =~= value@.take(pos as int));
            return (host, Some(after));
        }
    }
    (value, None)
}

/// What is wrong with the port of an upstream.
pub open spec fn upstream_port_complaint(port: Seq<char>, context: Seq<char>) -> Complaint {
    match unsigned_value(port, u32::MAX as nat) {
        None => Some(context + ": invalid port "@ + debug_form(port)),
        Some(n) => if n == 0 || n > 65535 {
            Some(context + ": port "@ + decimal(n) + " must be 1\u{2013}65535"@)
        } else {
            None
        },
    }
}

/// Validate the port portion of an upstream.
pub fn check_upstream_port(port_str: &str, ctx: &str) -> (r: Result<(), ForgeError>)
    ensures
        verdict(r, upstream_port_complaint(port_str@, ctx@)),
{
    let port = match parse_unsigned(port_str, u32::MAX as u64) {
        Some(n) => n,
        None => {
            return invalid(join3(ctx, ": invalid port ", &quoted(port_str)));
        },
    };
    if port == 0 || port > 65535 {
        return invalid(join4(ctx, ": port ", &to_decimal(port), " must be 1\u{2013}65535"));
    }
    Ok(())
}

/// What is wrong with the labels of a host name from position `i` on.
pub open spec fn labels_complaint(
    labels: Seq<Seq<char>>,
    i: int,
    context: Seq<char>,
) -> Complaint
    decreases labels.len() - i,
{
    if i >= labels.len() {
        None
    } else {
        first_complaint(
            dns_label_complaint(labels[i], context),
            labels_complaint(labels, i + 1, context),
        )
    }
}

/// What is wrong with a host name: every part between dots is a DNS label.
pub open spec fn upstream_dns_name_complaint(name: Seq<char>, context: Seq<char>) -> Complaint {
    labels_complaint(split_on(name, '.'), 0, context)
}

/// Validate a DNS hostname (dot-separated lowercase DNS labels).
pub fn check_upstream_dns_name(name: &str, ctx: &str) -> (r: Result<(), ForgeError>)
    ensures
        verdict(r, upstream_dns_name_complaint(name@, ctx@)),
{
    let labels = split(name, '.');
    let ghost pieces = split_on(name@, '.');
    let mut i: usize = 0;
    while i < labels.len()
        invariant
            pieces == split_on(name@, '.'),
            texts(labels@) == pieces,
            i <= labels@.len(),
            labels_complaint(pieces, 0, ctx@) == labels_complaint(pieces, i as int, ctx@),
        decreases labels.len() - i,
    {
        assert(pieces[i as int] == labels@[i as int]@);
        check_dns_label(&labels[i], ctx)?;
        i += 1;
    }
    Ok(())
}

/// What is wrong with the host of an upstream: an IPv4 address or a host name.
pub open spec fn upstream_host_complaint(host: Seq<char>, context: Seq<char>) -> Complaint {
    if host.len() == 0 {
        Some(context + ": empty host"@)
    } else if ipv4_value(host) is Some {
        None
    } else {
        upstream_dns_name_complaint(host, context)
    }
}

/// Validate the host portion as IPv4 or DNS hostname.
///
/// IPv4 parsing is attempted first; anything else is validated as a
/// DNS hostname, since RFC 1123 hostnames may begin with a digit
/// (e.g. `"0.pool.ntp.org"`).
pub fn check_upstream_host(host: &str, ctx: &str) -> (r: Result<(), ForgeError>)
    ensures
        verdict(r, upstream_host_complaint(host@, ctx@)),
{
    if host.unicode_len() == 0 {
        return invalid(join2(ctx, ": empty host"));
    }
    if parse_ipv4(host).is_some() {
        return Ok(());
    }
    check_upstream_dns_name(host, ctx)
}

/// What is wrong with an upstream of a forwarded zone.
pub open spec fn upstream_complaint(value: Seq<char>, stack: Seq<char>) -> Complaint {
    let context = stack_context(stack, "coredns-forward upstream"@);
    first_complaint(
        non_blank_complaint(value, context),
        if byte_len(value) > 253 {
            Some(context + ": exceeds 253 characters"@)
        } else {
            first_complaint(
                match upstream_parts(value).1 {
                    Some(port) => upstream_port_complaint(port, context),
                    None => None,
                },
                upstream_host_complaint(upstream_parts(value).0, context),
            )
        },
    )
}

/// Validate a single `CoreDNS` upstream value.
///
/// Accepts: IPv4, IPv4:port, DNS hostname, DNS hostname:port.
pub fn check_upstream_value(value: &str, stack_name: &str) -> (r: Result<(), ForgeError>)
    ensures
        verdict(r, upstream_complaint(value@, stack_name@)),
{
    let ctx = in_stack(stack_name, "coredns-forward upstream");
    check_non_blank(value, &ctx)?;
    if utf8_len(value) > 253 {
        return invalid(join2(&ctx, ": exceeds 253 characters"));
    }
    let (host, port) = split_upstream_host_port(value);
    if let Some(port_str) = port {
        check_upstream_port(port_str, &ctx)?;
    }
    check_upstream_host(host, &ctx)
}

/// What is wrong with the upstreams from position `i` on.
pub open spec fn upstreams_complaint(
    upstreams: Seq<String>,
    i: int,
    stack: Seq<char>,
) -> Complaint
    decreases upstreams.len() - i,
{
    if i >= upstreams.len() {
        None
    } else {
        first_complaint(
            upstream_complaint(upstreams[i]@, stack),
            upstreams_complaint(upstreams, i + 1, stack),
        )
    }
}

/// What is wrong with a DNS forwarding step.
pub open spec fn coredns_forward_complaint(
    stack: Seq<char>,
    zone: Seq<char>,
    upstreams: Seq<String>,
) -> Complaint {
    let context = stack_context(stack, "coredns-forward zone"@);
    first_complaint(
        non_blank_complaint(zone, context),
        if dns_zone_complaint(zone) is Some {
            Some(context + ": "@ + debug_form(zone) + " is not a valid DNS zone"@)
        } else if upstreams.len() == 0 {
            Some(stack_context(stack, "coredns-forward requires at least one upstream"@))
        } else {
            upstreams_complaint(upstreams, 0, stack)
        },
    )
}

/// Validate a `CoreDNS` forward step.
pub fn check_coredns_forward_step(stack_name: &str, zone: &str, upstreams: &Vec<String>) -> (r:
    Result<(), ForgeError>)
    ensures
        verdict(r, coredns_forward_complaint(stack_name@, zone@, upstreams@)),
{
    let zone_ctx = in_stack(stack_name, "coredns-forward zone");
    check_non_blank(zone, &zone_ctx)?;
    if validate_dns_zone_rules(zone).is_err() {
        return invalid(join4(&zone_ctx, ": ", &quoted(zone), " is not a valid DNS zone"));
    }
    if upstreams.len() == 0 {
        return invalid(in_stack(stack_name, "coredns-forward requires at least one upstream"));
    }
    let mut i: usize = 0;
    while i < upstreams.len()
        invariant
            i <= upstreams@.len(),
            coredns_forward_complaint(stack_name@, zone@, upstreams@) == upstreams_complaint(
                upstreams@,
                i as int,
                stack_name@,
            ),
        decreases upstreams.len() - i,
    {
        check_upstream_value(&upstreams[i], stack_name)?;
        i += 1;
    }
    Ok(())
}

// ---------------------------------------------------------------
// Steps
// ---------------------------------------------------------------

/// What is wrong with a step.
pub open spec fn step_complaint(stack: Seq<char>, step: StepSpec) -> Complaint
    decreases step, 0int,
{
    match step {
        StepSpec::Url { url, sha256 } => url_step_complaint(stack, url@, sha256@),
        StepSpec::Manifest { path } => step_path_complaint(stack, path@),
        StepSpec::Kustomize { path } => step_path_complaint(stack, path@),
        StepSpec::TemplateManifest { path } => step_path_complaint(stack, path@),
        StepSpec::Helm { .. } => helm_complaint(stack, step),
        StepSpec::Deployment { name, image, namespace, .. } => named_workload_complaint(
            stack,
            "deployment"@,
            name@,
            image@,
            opt_text(namespace),
        ),
        StepSpec::Service { name, port, namespace } => service_step_complaint(
            stack,
            name@,
            port,
            opt_text(namespace),
        ),
        StepSpec::Wait { resource, condition, timeout, .. } => wait_complaint(
            stack,
            resource@,
            condition@,
            timeout@,
        ),
        StepSpec::Exec { command, env } => exec_complaint(stack, command@, env@),
        StepSpec::ForEach { property, steps } => for_each_complaint(stack, property@, steps),
        StepSpec::MetallbAutoPool { name } => named_resource_complaint(
            stack,
            "metallb pool"@,
            name@,
            None,
        ),
        StepSpec::CoreDnsForward { zone, upstreams } => coredns_forward_complaint(
            stack,
            zone@,
            upstreams@,
        ),
        StepSpec::Capture { .. } => capture_complaint(stack, step),
        StepSpec::TemplateFile { source, target } => template_file_complaint(
            stack,
            source@,
            target@,
        ),
    }
}

/// What is wrong with a repetition.
pub open spec fn for_each_complaint(
    stack: Seq<char>,
    property: Seq<char>,
    steps: Vec<StepSpec>,
) -> Complaint
    decreases steps, steps.len() + 1,
{
    first_complaint(
        non_blank_complaint(property, stack_context(stack, "for-each property"@)),
        if steps.len() == 0 {
            Some(stack_context(stack, "for-each steps must not be empty"@))
        } else {
            steps_complaint(stack, steps, 0)
        },
    )
}

/// What is wrong with the steps from position `i` on.
pub open spec fn steps_complaint(stack: Seq<char>, steps: Vec<StepSpec>, i: int) -> Complaint
    decreases steps, steps.len() - i,
{
    if i < 0 || i >= steps.len() {
        None
    } else {
        first_complaint(
            step_complaint(stack, steps[i]),
            steps_complaint(stack, steps, i + 1),
        )
    }
}

/// Validate a single stack step.
pub fn check_step(stack_name: &str, step: &StepSpec) -> (r: Result<(), ForgeError>)
    ensures
        verdict(r, step_complaint(stack_name@, *step)),
    decreases step,
{
    match step {
        StepSpec::Url { url, sha256 } => check_url_step(stack_name, url, sha256),
        StepSpec::Manifest { path } => check_step_path(stack_name, path),
        StepSpec::Kustomize { path } => check_step_path(stack_name, path),
        StepSpec::TemplateManifest { path } => check_step_path(stack_name, path),
        StepSpec::Helm { .. } => check_helm_step(stack_name, step),
        StepSpec::Deployment { name, image, namespace, .. } => check_named_workload_step(
            stack_name,
            "deployment",
            name,
            image,
            borrow_text(namespace),
        ),
        StepSpec::Service { name, port, namespace } => check_service_step(
            stack_name,
            name,
            *port,
            borrow_text(namespace),
        ),
        StepSpec::Wait { resource, condition, timeout, .. } => check_wait_step(
            stack_name,
            resource,
            condition,
            timeout,
        ),
        StepSpec::Exec { command, env } => check_exec_step(stack_name, command, env),
        StepSpec::ForEach { property, steps } => check_for_each_step(stack_name, property, steps),
        StepSpec::MetallbAutoPool { name } => check_named_resource_step(
            stack_name,
            "metallb pool",
            name,
            None,
        ),
        StepSpec::CoreDnsForward { zone, upstreams } => check_coredns_forward_step(
            stack_name,
            zone,
            upstreams,
        ),
        StepSpec::Capture { .. } => check_capture_step(stack_name, step),
        StepSpec::TemplateFile { source, target } => check_template_file_step(
            stack_name,
            source,
            target,
        ),
    }
}

/// Validate a for-each step.
pub fn check_for_each_step(stack_name: &str, property: &str, steps: &Vec<StepSpec>) -> (r: Result<
    (),
    ForgeError,
>)
    ensures
        verdict(r, for_each_complaint(stack_name@, property@, *steps)),
    decreases steps,
{
    check_non_blank(property, &in_stack(stack_name, "for-each property"))?;
    if steps.len() == 0 {
        return invalid(in_stack(stack_name, "for-each steps must not be empty"));
    }
    let mut i: usize = 0;
    while i < steps.len()
        invariant
            i <= steps@.len(),
            for_each_complaint(stack_name@, property@, *steps) == steps_complaint(
                stack_name@,
                *steps,
                i as int,
            ),
        decreases steps.len() - i,
    {
        check_step(stack_name, &steps[i])?;
        i += 1;
    }
    Ok(())
}

} // verus!
