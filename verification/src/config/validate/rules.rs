//! The rules that an accepted configuration meets, stated of its fields.

use vstd::prelude::*;
use crate::config::document::config_json;
use crate::config::validate::clusters::{
    cluster_names_complaint, cluster_node_complaint, cluster_nodes_complaint,
    cluster_port_complaint, cluster_ports_complaint, cluster_stack_refs_complaint,
    kind_names_complaint, ports_of_cluster_complaint, referenced_before, stack_refs_complaint,
};
use crate::config::validate::deps::{
    auto_deps_of_complaint, auto_start_complaint, depends, deps_of_complaint, has_dep_cycle,
    is_dep_cycle, lemma_provider, provider, service_deps_complaint,
};
use crate::config::validate::fields::{
    duration_complaint, full_field_template, relative_path_complaint, sha256_complaint,
    shell_safe_ident,
};
use crate::config::validate::laws::accepted;
use crate::config::validate::names::{
    dns_label_complaint, dns_zone_complaint, docker_name_complaint,
};
use crate::config::validate::order::{
    has_port, law_bindings_are_accepted_in_any_order, port_key, port_of, PortKey,
};
use crate::config::validate::ports::{all_claims, claims_complaint, ports_conflict};
use crate::config::validate::services::{
    health_port_complaint, publishes_tcp, service_args_complaint, service_complaint,
    service_env_complaint, service_health_complaint, service_image_complaint,
    service_names_complaint, service_port_complaint, service_ports_complaint,
    service_volumes_complaint, services_complaint, volume_complaint,
};
use crate::config::validate::steps::{
    exec_args_complaint, exec_env_complaint, for_each_complaint, labels_complaint, last_position,
    step_complaint, steps_complaint, upstream_complaint, upstream_host_complaint, upstream_parts,
    upstreams_complaint,
};
use crate::config::validate::templates::{lemma_template_path_found, mentions_template};
use crate::config::validate::{
    attached_complaint, forwarding_complaint, stack_names_complaint, stack_steps_complaint,
    step_forwards_dns,
};
use crate::config::{
    ClusterSpec, ForgeConfig, HealthCheck, NetworkMode, PortMapping, RuntimeProvider, ServiceSpec,
    StackSpec, StepSpec, VolumeMount,
};
use crate::ip::{ip_value, ipv4_value, IpAddr};
use crate::numeral::{digits_value, unsigned_value};
use crate::strmap::has_key;
use crate::text::{
    all_in, before_suffix, begins_with, byte_len, first_is, in_class, is_blank, lowercase_form,
    occurs_at, opt_text, split_on, trim, CharClass,
};

verus! {

// ---------------------------------------------------------------
// Texts
// ---------------------------------------------------------------

/// True for a DNS label: one to 63 bytes, made of lower-case letters, digits and
/// hyphens, and with no hyphen at either end.
pub open spec fn is_label(name: Seq<char>) -> bool {
    &&& 0 < name.len()
    &&& byte_len(name) <= 63
    &&& forall|i: int|
        0 <= i < name.len() ==> ('a' <= #[trigger] name[i] <= 'z' || '0' <= name[i] <= '9'
            || name[i] == '-')
    &&& name[0] != '-'
    &&& name[name.len() - 1] != '-'
}

/// True for a name that the container runtime takes: one to 128 bytes, made of
/// letters, digits, hyphens, underscores and dots.
pub open spec fn is_resource_name(name: Seq<char>) -> bool {
    &&& 0 < name.len()
    &&& byte_len(name) <= 128
    &&& forall|i: int|
        0 <= i < name.len() ==> ('a' <= #[trigger] name[i] <= 'z' || 'A' <= name[i] <= 'Z' || '0'
            <= name[i] <= '9' || name[i] == '-' || name[i] == '_' || name[i] == '.')
}

/// True for a DNS zone: one to 253 bytes, made of lower-case letters, digits,
/// hyphens and dots, with a dot in it and neither a dot nor a hyphen at either
/// end.
pub open spec fn is_zone(zone: Seq<char>) -> bool {
    &&& 0 < zone.len()
    &&& byte_len(zone) <= 253
    &&& forall|i: int|
        0 <= i < zone.len() ==> ('a' <= #[trigger] zone[i] <= 'z' || '0' <= zone[i] <= '9'
            || zone[i] == '-' || zone[i] == '.')
    &&& zone[0] != '.' && zone[0] != '-'
    &&& zone[zone.len() - 1] != '.' && zone[zone.len() - 1] != '-'
    &&& exists|i: int| 0 <= i < zone.len() && #[trigger] zone[i] == '.'
}

/// True for a path below the configuration root: it is not blank, does not begin
/// at the file system's root, and goes up nowhere.
pub open spec fn is_inner_path(path: Seq<char>) -> bool {
    &&& !is_blank(path)
    &&& path[0] != '/'
    &&& !split_on(path, '/').contains(".."@)
}

/// A text without the plus sign at its front, if it has one.
pub open spec fn without_plus(s: Seq<char>) -> Seq<char> {
    if s.len() > 0 && s[0] == '+' {
        s.drop_first()
    } else {
        s
    }
}

/// True when a text is made of decimal digits.
pub open spec fn is_digits(s: Seq<char>) -> bool {
    s.len() > 0 && forall|i: int| 0 <= i < s.len() ==> '0' <= #[trigger] s[i] <= '9'
}

/// True when a text is the decimal numeral of a number, with or without a plus
/// sign before it.
pub open spec fn is_numeral(s: Seq<char>, n: nat) -> bool {
    is_digits(without_plus(s)) && digits_value(without_plus(s)) == n
}

/// True for a duration: a number of seconds or milliseconds that is positive and
/// amounts to at most a day.
pub open spec fn is_duration(value: Seq<char>) -> bool {
    exists|amount: Seq<char>, n: nat|
        #[trigger] is_numeral(amount, n) && ((value == amount + "s"@ && 1 <= n <= 86_400) || (value
            == amount + "ms"@ && 1 <= n <= 86_400_000))
}

/// True for a text that can be handed to a tool as an argument: it is not blank
/// and cannot be taken for an option.
pub open spec fn is_argument(value: Seq<char>) -> bool {
    !is_blank(value) && value[0] != '-'
}

/// True for the name of an environment variable: letters, digits and underscores,
/// and no digit at the front.
pub open spec fn is_identifier(key: Seq<char>) -> bool {
    &&& key.len() > 0
    &&& forall|i: int|
        0 <= i < key.len() ==> ('a' <= #[trigger] key[i] <= 'z' || 'A' <= key[i] <= 'Z' || '0'
            <= key[i] <= '9' || key[i] == '_')
    &&& !('0' <= key[0] <= '9')
}

/// True when a text, but for the white space around it, is one template and
/// nothing else.
pub open spec fn is_template(value: Seq<char>) -> bool {
    let body = trim(value);
    &&& body.len() >= 2 && body[0] == '{' && body[1] == '{'
    &&& body[body.len() - 2] == '}' && body[body.len() - 1] == '}'
    &&& forall|i: int| #![trigger body[i]]
        2 <= i && i + 1 < body.len() ==> !(body[i] == '{' && body[i + 1] == '{')
}

/// True for a SHA-256 digest: 64 hexadecimal digits, or a template for them.
pub open spec fn is_digest(value: Seq<char>) -> bool {
    is_template(value) || (byte_len(value) == 64 && forall|i: int|
        0 <= i < value.len() ==> ('0' <= #[trigger] value[i] <= '9' || 'a' <= value[i] <= 'f'
            || 'A' <= value[i] <= 'F'))
}

pub(crate) proof fn lemma_label(name: Seq<char>, context: Seq<char>)
    ensures
        dns_label_complaint(name, context) is None <==> is_label(name),
{
    if dns_label_complaint(name, context) is None {
        assert forall|i: int| 0 <= i < name.len() implies ('a' <= #[trigger] name[i] <= 'z' || '0'
            <= name[i] <= '9' || name[i] == '-') by {
            assert(in_class(CharClass::Label, name[i]));
        }
    }
    if is_label(name) {
        assert(all_in(CharClass::Label, name));
    }
}

pub(crate) proof fn lemma_resource_name(name: Seq<char>, context: Seq<char>)
    ensures
        docker_name_complaint(name, context) is None <==> is_resource_name(name),
{
    if docker_name_complaint(name, context) is None {
        assert forall|i: int| 0 <= i < name.len() implies ('a' <= #[trigger] name[i] <= 'z' || 'A'
            <= name[i] <= 'Z' || '0' <= name[i] <= '9' || name[i] == '-' || name[i] == '_'
            || name[i] == '.') by {
            assert(in_class(CharClass::Container, name[i]));
        }
    }
    if is_resource_name(name) {
        assert(all_in(CharClass::Container, name));
    }
}

pub(crate) proof fn lemma_zone(zone: Seq<char>)
    ensures
        dns_zone_complaint(zone) is None <==> is_zone(zone),
{
    if dns_zone_complaint(zone) is None {
        assert forall|i: int| 0 <= i < zone.len() implies ('a' <= #[trigger] zone[i] <= 'z' || '0'
            <= zone[i] <= '9' || zone[i] == '-' || zone[i] == '.') by {
            assert(in_class(CharClass::Zone, zone[i]));
        }
        let i = choose|i: int| 0 <= i < zone.len() && zone[i] == '.';
        assert(zone[i] == '.');
    }
    if is_zone(zone) {
        assert(all_in(CharClass::Zone, zone));
        let i = choose|i: int| 0 <= i < zone.len() && #[trigger] zone[i] == '.';
        assert(zone.contains('.'));
    }
}

proof fn lemma_inner_path(path: Seq<char>, context: Seq<char>)
    ensures
        relative_path_complaint(path, context) is None <==> is_inner_path(path),
{
}

pub(crate) proof fn lemma_numeral(s: Seq<char>, max: nat)
    ensures
        match unsigned_value(s, max) {
            Some(n) => is_numeral(s, n) && n <= max,
            None => forall|n: nat| #[trigger] is_numeral(s, n) ==> n > max,
        },
{
    let digits = without_plus(s);
    if let Some(n) = unsigned_value(s, max) {
        assert forall|i: int| 0 <= i < digits.len() implies '0' <= #[trigger] digits[i] <= '9' by {
            assert(in_class(CharClass::Digit, digits[i]));
        }
    }
    assert forall|n: nat| unsigned_value(s, max) is None && #[trigger] is_numeral(
        s,
        n,
    ) implies n > max by {
        assert(is_digits(digits));
        assert forall|i: int| 0 <= i < digits.len() implies in_class(
            CharClass::Digit,
            #[trigger] digits[i],
        ) by {
            assert('0' <= digits[i] <= '9');
        }
    }
}

pub(crate) proof fn lemma_suffix(value: Seq<char>, part: Seq<char>, amount: Seq<char>)
    ensures
        value == amount + part ==> before_suffix(value, part) == Some(amount),
        before_suffix(value, part) matches Some(digits) ==> value == digits + part,
{
    if value == amount + part {
        assert(value.subrange(amount.len() as int, value.len() as int) =~= part);
        assert(value.take(amount.len() as int) =~= amount);
    }
    if let Some(digits) = before_suffix(value, part) {
        assert(value =~= digits + part);
    }
}

proof fn lemma_duration(value: Seq<char>, context: Seq<char>)
    ensures
        duration_complaint(value, context) is None <==> is_duration(value),
{
    reveal_strlit("s");
    reveal_strlit("ms");
    if duration_complaint(value, context) is None {
        match before_suffix(value, "ms"@) {
            Some(digits) => {
                lemma_suffix(value, "ms"@, digits);
                lemma_numeral(digits, u64::MAX as nat);
                let n = unsigned_value(digits, u64::MAX as nat)->0;
                assert(is_numeral(digits, n));
            },
            None => {
                let digits = before_suffix(value, "s"@)->0;
                lemma_suffix(value, "s"@, digits);
                lemma_numeral(digits, u64::MAX as nat);
                let n = unsigned_value(digits, u64::MAX as nat)->0;
                assert(is_numeral(digits, n));
            },
        }
    }
    if is_duration(value) {
        let (amount, n) = choose|amount: Seq<char>, n: nat|
            #[trigger] is_numeral(amount, n) && ((value == amount + "s"@ && 1 <= n <= 86_400) || (
            value == amount + "ms"@ && 1 <= n <= 86_400_000));
        lemma_suffix(value, "ms"@, amount);
        lemma_suffix(value, "s"@, amount);
        lemma_numeral(amount, u64::MAX as nat);
        if value == amount + "ms"@ && n <= 86_400_000 {
            assert(before_suffix(value, "ms"@) == Some(amount));
        } else {
            if let Some(digits) = before_suffix(value, "ms"@) {
                lemma_suffix(value, "ms"@, digits);
                assert(value[value.len() - 2] == 'm');
                let last = amount[amount.len() - 1];
                assert(last == 'm');
                let rest = without_plus(amount);
                assert('0' <= rest[rest.len() - 1] <= '9');
            }
            assert(before_suffix(value, "s"@) == Some(amount));
        }
    }
}

pub(crate) proof fn lemma_identifier(key: Seq<char>)
    ensures
        shell_safe_ident(key) <==> is_identifier(key),
{
    if shell_safe_ident(key) {
        assert forall|i: int| 0 <= i < key.len() implies ('a' <= #[trigger] key[i] <= 'z' || 'A'
            <= key[i] <= 'Z' || '0' <= key[i] <= '9' || key[i] == '_') by {
            assert(in_class(CharClass::IdentRest, key[i]));
        }
    }
    if is_identifier(key) {
        assert(all_in(CharClass::IdentRest, key));
        assert(in_class(CharClass::IdentRest, key[0]));
    }
}

proof fn lemma_pair(s: Seq<char>, part: Seq<char>, i: int)
    requires
        part.len() == 2,
    ensures
        occurs_at(s, part, i) <==> 0 <= i && i + 2 <= s.len() && s[i] == part[0] && s[i + 1]
            == part[1],
{
    if 0 <= i && i + 2 <= s.len() {
        let piece = s.subrange(i, i + 2);
        assert(piece[0] == s[i] && piece[1] == s[i + 1]);
        if s[i] == part[0] && s[i + 1] == part[1] {
            assert(piece =~= part);
        }
    }
}

proof fn lemma_template(value: Seq<char>)
    ensures
        full_field_template(value) <==> is_template(value),
{
    reveal_strlit("{{");
    reveal_strlit("}}");
    let body = trim(value);
    lemma_pair(body, "{{"@, 0);
    lemma_pair(body, "}}"@, body.len() - 2);
    assert forall|i: int| #[trigger] occurs_at(body, "{{"@, i) <==> 0 <= i && i + 2 <= body.len()
        && body[i] == '{' && body[i + 1] == '{' by {
        lemma_pair(body, "{{"@, i);
    }
    if full_field_template(value) {
        assert forall|i: int| #![trigger body[i]]
            2 <= i && i + 1 < body.len() implies !(body[i] == '{' && body[i + 1] == '{') by {
            assert(!occurs_at(body, "{{"@, i));
        }
    }
}

pub(crate) proof fn lemma_digest(value: Seq<char>, context: Seq<char>)
    ensures
        sha256_complaint(value, context) is None <==> is_digest(value),
{
    lemma_template(value);
    if byte_len(value) == 64 && all_in(CharClass::Hex, value) {
        assert forall|i: int| 0 <= i < value.len() implies ('0' <= #[trigger] value[i] <= '9' || 'a'
            <= value[i] <= 'f' || 'A' <= value[i] <= 'F') by {
            assert(in_class(CharClass::Hex, value[i]));
        }
    }
    if is_digest(value) && !is_template(value) {
        assert(all_in(CharClass::Hex, value));
    }
}

// ---------------------------------------------------------------
// Clusters
// ---------------------------------------------------------------

/// True when the clusters have labels for names, and no two share one.
pub open spec fn clusters_are_named(clusters: Seq<ClusterSpec>) -> bool {
    &&& forall|i: int| 0 <= i < clusters.len() ==> is_label((#[trigger] clusters[i]).name@)
    &&& forall|i: int, j: int|
        0 <= i < j < clusters.len() ==> (#[trigger] clusters[i]).name@ != (
        #[trigger] clusters[j]).name@
}

proof fn lemma_clusters_named(clusters: Seq<ClusterSpec>, i: int)
    requires
        0 <= i <= clusters.len(),
    ensures
        cluster_names_complaint(clusters, i) is None <==> {
            &&& forall|k: int| i <= k < clusters.len() ==> is_label((#[trigger] clusters[k]).name@)
            &&& forall|j: int, k: int|
                0 <= j < k && i <= k < clusters.len() ==> (#[trigger] clusters[j]).name@ != (
                #[trigger] clusters[k]).name@
        },
    decreases clusters.len() - i,
{
    if i < clusters.len() {
        lemma_clusters_named(clusters, i + 1);
        lemma_label(clusters[i].name@, "cluster"@);
    }
}

/// True when the prefix is a label, and the KIND name of every cluster, the
/// prefix and the name with a hyphen between them, is a name that the container
/// runtime takes.
pub open spec fn kind_names_are_valid(prefix: Seq<char>, clusters: Seq<ClusterSpec>) -> bool {
    &&& is_label(prefix)
    &&& forall|i: int|
        0 <= i < clusters.len() ==> is_resource_name(
            prefix + "-"@ + (#[trigger] clusters[i]).name@,
        )
}

proof fn lemma_kind_names(prefix: Seq<char>, clusters: Seq<ClusterSpec>, i: int)
    requires
        0 <= i <= clusters.len(),
    ensures
        kind_names_complaint(prefix, clusters, i) is None <==> forall|k: int|
            i <= k < clusters.len() ==> is_resource_name(
                prefix + "-"@ + (#[trigger] clusters[k]).name@,
            ),
    decreases clusters.len() - i,
{
    if i < clusters.len() {
        lemma_kind_names(prefix, clusters, i + 1);
        lemma_resource_name(prefix + "-"@ + clusters[i].name@, "derived KIND cluster name"@);
    }
}

/// True when a cluster has one to nine control planes and at most a hundred
/// workers.
pub open spec fn has_valid_nodes(cluster: ClusterSpec) -> bool {
    1 <= cluster.nodes.control_planes <= 9 && cluster.nodes.workers <= 100
}

proof fn lemma_nodes(clusters: Seq<ClusterSpec>, i: int)
    requires
        0 <= i <= clusters.len(),
    ensures
        cluster_nodes_complaint(clusters, i) is None <==> forall|k: int|
            i <= k < clusters.len() ==> has_valid_nodes(#[trigger] clusters[k]),
    decreases clusters.len() - i,
{
    if i < clusters.len() {
        lemma_nodes(clusters, i + 1);
        assert(cluster_node_complaint(clusters[i]) is None <==> has_valid_nodes(clusters[i]));
    }
}

/// True when a mapping has both ports, and an IP address where it has an address.
pub open spec fn has_valid_ends(port: PortMapping) -> bool {
    &&& port.host != 0
    &&& port.container != 0
    &&& port.bind_address matches Some(text) ==> ip_value(text@) is Some
}

/// True when a mapping of a cluster is valid: its protocol, in any case, is one of
/// three.
pub open spec fn is_cluster_port(port: PortMapping) -> bool {
    &&& has_valid_ends(port)
    &&& lowercase_form(port.protocol@) == "tcp"@ || lowercase_form(port.protocol@) == "udp"@
        || lowercase_form(port.protocol@) == "sctp"@
}

proof fn lemma_ports_of_cluster(cluster: ClusterSpec, j: int)
    requires
        0 <= j <= cluster.ports@.len(),
    ensures
        ports_of_cluster_complaint(cluster, j) is None <==> forall|k: int|
            j <= k < cluster.ports@.len() ==> is_cluster_port(#[trigger] cluster.ports@[k]),
    decreases cluster.ports@.len() - j,
{
    if j < cluster.ports@.len() {
        lemma_ports_of_cluster(cluster, j + 1);
        assert(cluster_port_complaint(cluster.ports@[j], cluster.name@) is None <==> is_cluster_port(
            cluster.ports@[j],
        ));
    }
}

/// True when every mapping of a cluster is valid.
pub open spec fn has_valid_ports(cluster: ClusterSpec) -> bool {
    forall|p: int| 0 <= p < cluster.ports@.len() ==> is_cluster_port(#[trigger] cluster.ports@[p])
}

proof fn lemma_cluster_ports(clusters: Seq<ClusterSpec>, i: int)
    requires
        0 <= i <= clusters.len(),
    ensures
        cluster_ports_complaint(clusters, i) is None <==> forall|k: int|
            i <= k < clusters.len() ==> has_valid_ports(#[trigger] clusters[k]),
    decreases clusters.len() - i,
{
    if i < clusters.len() {
        lemma_cluster_ports(clusters, i + 1);
        lemma_ports_of_cluster(clusters[i], 0);
    }
}

/// True when some stack has a name.
pub open spec fn is_stack_name(stacks: Seq<(Seq<char>, StackSpec)>, name: Seq<char>) -> bool {
    exists|i: int| 0 <= i < stacks.len() && (#[trigger] stacks[i]).0 == name
}

/// True when every stack that a cluster refers to is configured, and none is
/// referred to twice.
pub open spec fn refers_to_stacks(
    cluster: ClusterSpec,
    stacks: Seq<(Seq<char>, StackSpec)>,
) -> bool {
    &&& forall|r: int|
        0 <= r < cluster.stacks@.len() ==> is_stack_name(stacks, (#[trigger] cluster.stacks@[r])@)
    &&& forall|q: int, r: int|
        0 <= q < r < cluster.stacks@.len() ==> (#[trigger] cluster.stacks@[q])@ != (
        #[trigger] cluster.stacks@[r])@
}

proof fn lemma_refs(cluster: ClusterSpec, stacks: Seq<(Seq<char>, StackSpec)>, j: int)
    requires
        0 <= j <= cluster.stacks@.len(),
    ensures
        stack_refs_complaint(cluster, stacks, j) is None <==> {
            &&& forall|r: int|
                j <= r < cluster.stacks@.len() ==> is_stack_name(
                    stacks,
                    (#[trigger] cluster.stacks@[r])@,
                )
            &&& forall|q: int, r: int|
                0 <= q < r && j <= r < cluster.stacks@.len() ==> (#[trigger] cluster.stacks@[q])@
                    != (#[trigger] cluster.stacks@[r])@
        },
    decreases cluster.stacks@.len() - j,
{
    if j < cluster.stacks@.len() {
        lemma_refs(cluster, stacks, j + 1);
        assert(has_key(stacks, cluster.stacks@[j]@) <==> is_stack_name(
            stacks,
            cluster.stacks@[j]@,
        ));
        assert(referenced_before(cluster.stacks@, j) <==> exists|k: int|
            0 <= k < j && (#[trigger] cluster.stacks@[k])@ == cluster.stacks@[j]@);
    }
}

proof fn lemma_cluster_refs(
    clusters: Seq<ClusterSpec>,
    stacks: Seq<(Seq<char>, StackSpec)>,
    i: int,
)
    requires
        0 <= i <= clusters.len(),
    ensures
        cluster_stack_refs_complaint(clusters, stacks, i) is None <==> forall|k: int|
            i <= k < clusters.len() ==> refers_to_stacks(#[trigger] clusters[k], stacks),
    decreases clusters.len() - i,
{
    if i < clusters.len() {
        lemma_cluster_refs(clusters, stacks, i + 1);
        lemma_refs(clusters[i], stacks, 0);
    }
}

// ---------------------------------------------------------------
// Services
// ---------------------------------------------------------------

/// True when the services have labels for names, and no two share one.
pub open spec fn services_are_named(services: Seq<ServiceSpec>) -> bool {
    &&& forall|i: int| 0 <= i < services.len() ==> is_label((#[trigger] services[i]).name@)
    &&& forall|i: int, j: int|
        0 <= i < j < services.len() ==> (#[trigger] services[i]).name@ != (
        #[trigger] services[j]).name@
}

proof fn lemma_services_named(services: Seq<ServiceSpec>, i: int)
    requires
        0 <= i <= services.len(),
    ensures
        service_names_complaint(services, i) is None <==> {
            &&& forall|k: int| i <= k < services.len() ==> is_label((#[trigger] services[k]).name@)
            &&& forall|j: int, k: int|
                0 <= j < k && i <= k < services.len() ==> (#[trigger] services[j]).name@ != (
                #[trigger] services[k]).name@
        },
    decreases services.len() - i,
{
    if i < services.len() {
        lemma_services_named(services, i + 1);
        lemma_label(services[i].name@, "service"@);
    }
}

/// True when a service has an image of at most 512 bytes that can be handed to a
/// tool.
pub open spec fn has_valid_image(svc: ServiceSpec) -> bool {
    is_argument(svc.image@) && byte_len(svc.image@) <= 512
}

/// True when a mapping of a service is valid: its protocol is TCP.
pub open spec fn is_service_port(port: PortMapping) -> bool {
    has_valid_ends(port) && port.protocol@ == "tcp"@
}

proof fn lemma_service_ports(svc: ServiceSpec, i: int)
    requires
        0 <= i <= svc.ports@.len(),
    ensures
        service_ports_complaint(svc, i) is None <==> forall|k: int|
            i <= k < svc.ports@.len() ==> is_service_port(#[trigger] svc.ports@[k]),
    decreases svc.ports@.len() - i,
{
    if i < svc.ports@.len() {
        lemma_service_ports(svc, i + 1);
        assert(service_port_complaint(svc.ports@[i], svc.name@) is None <==> is_service_port(
            svc.ports@[i],
        ));
    }
}

/// True when a volume is mounted from below the configuration root to an absolute
/// path.
pub open spec fn is_volume(vol: VolumeMount) -> bool {
    is_inner_path(vol.source@) && vol.target@.len() > 0 && vol.target@[0] == '/'
}

proof fn lemma_volumes(svc: ServiceSpec, i: int)
    requires
        0 <= i <= svc.volumes@.len(),
    ensures
        service_volumes_complaint(svc, i) is None <==> forall|k: int|
            i <= k < svc.volumes@.len() ==> is_volume(#[trigger] svc.volumes@[k]),
    decreases svc.volumes@.len() - i,
{
    if i < svc.volumes@.len() {
        lemma_volumes(svc, i + 1);
        assert(volume_complaint(svc.volumes@[i], svc.name@) is None <==> is_volume(svc.volumes@[i]));
    }
}

/// True when every environment variable has a name of at most 256 bytes.
pub open spec fn has_valid_env(env: Seq<(Seq<char>, String)>) -> bool {
    forall|i: int|
        0 <= i < env.len() ==> is_identifier((#[trigger] env[i]).0) && byte_len(env[i].0) <= 256
}

proof fn lemma_env(env: Seq<(Seq<char>, String)>, service: Seq<char>, i: int)
    requires
        0 <= i <= env.len(),
    ensures
        service_env_complaint(env, service, i) is None <==> forall|k: int|
            i <= k < env.len() ==> is_identifier((#[trigger] env[k]).0) && byte_len(env[k].0)
                <= 256,
    decreases env.len() - i,
{
    if i < env.len() {
        lemma_env(env, service, i + 1);
        lemma_identifier(env[i].0);
    }
}

/// True when a service has at most 128 arguments of at most 4096 bytes each.
pub open spec fn has_valid_args(svc: ServiceSpec) -> bool {
    &&& svc.args@.len() <= 128
    &&& forall|i: int| 0 <= i < svc.args@.len() ==> byte_len((#[trigger] svc.args@[i])@) <= 4096
}

/// True when the port that a health check probes can be reached: the service is on
/// the network of the host, or one of its mappings, at whatever position,
/// publishes the port over TCP.
pub open spec fn is_reachable(svc: ServiceSpec, port: u16) -> bool {
    svc.network == NetworkMode::Host || exists|i: int|
        0 <= i < svc.ports@.len() && (#[trigger] svc.ports@[i]).container == port
            && svc.ports@[i].protocol@ == "tcp"@
}

/// The rule for the port of a health check has no complaint exactly when the port
/// can be reached, by whichever mapping.
pub proof fn law_published_health_ports_are_accepted(svc: ServiceSpec, hc: HealthCheck)
    ensures
        health_port_complaint(svc, hc) is None <==> is_reachable(svc, hc.port),
{
    if is_reachable(svc, hc.port) && svc.network != NetworkMode::Host {
        let i = choose|i: int|
            0 <= i < svc.ports@.len() && (#[trigger] svc.ports@[i]).container == hc.port
                && svc.ports@[i].protocol@ == "tcp"@;
        assert(publishes_tcp(svc.ports[i], hc.port));
    }
    if health_port_complaint(svc, hc) is None && svc.network != NetworkMode::Host {
        let i = choose|i: int|
            0 <= i < svc.ports.len() && publishes_tcp(#[trigger] svc.ports[i], hc.port);
        assert(svc.ports@[i].container == hc.port);
    }
}

/// True when the health check of a service is valid, if it has one: it probes a
/// port that can be reached, one to 300 times, with durations for the interval
/// and the timeout.
pub open spec fn has_valid_health_check(svc: ServiceSpec) -> bool {
    svc.health_check matches Some(hc) ==> {
        &&& hc.port != 0
        &&& 1 <= hc.retries <= 300
        &&& is_duration(hc.interval@)
        &&& is_duration(hc.timeout@)
        &&& is_reachable(svc, hc.port)
    }
}

/// True when a service is valid by itself.
pub open spec fn is_service(svc: ServiceSpec) -> bool {
    &&& has_valid_image(svc)
    &&& forall|i: int| 0 <= i < svc.ports@.len() ==> is_service_port(#[trigger] svc.ports@[i])
    &&& forall|i: int| 0 <= i < svc.volumes@.len() ==> is_volume(#[trigger] svc.volumes@[i])
    &&& has_valid_env(svc.env@)
    &&& has_valid_args(svc)
    &&& has_valid_health_check(svc)
}

/// A service is accepted by itself exactly when it is valid.
pub proof fn law_services_are_accepted_iff_valid(svc: ServiceSpec)
    ensures
        service_complaint(svc) is None <==> is_service(svc),
{
    lemma_service_ports(svc, 0);
    lemma_volumes(svc, 0);
    lemma_env(svc.env@, svc.name@, 0);
    assert(service_image_complaint(svc) is None <==> has_valid_image(svc));
    assert(service_args_complaint(svc) is None <==> has_valid_args(svc)) by {
        if service_args_complaint(svc) is None {
            assert forall|i: int| 0 <= i < svc.args@.len() implies byte_len(
                (#[trigger] svc.args@[i])@,
            ) <= 4096 by {
                assert(!(byte_len(svc.args[i]@) > 4096));
            }
        }
    }
    if let Some(hc) = svc.health_check {
        lemma_duration(
            hc.interval@,
            crate::config::validate::services::service_context(
                svc.name@,
                "health check interval"@,
            ),
        );
        lemma_duration(
            hc.timeout@,
            crate::config::validate::services::service_context(
                svc.name@,
                "health check timeout"@,
            ),
        );
        law_published_health_ports_are_accepted(svc, hc);
    }
    assert(service_health_complaint(svc) is None <==> has_valid_health_check(svc));
}

proof fn lemma_services(services: Seq<ServiceSpec>, i: int)
    requires
        0 <= i <= services.len(),
    ensures
        services_complaint(services, i) is None <==> forall|k: int|
            i <= k < services.len() ==> is_service(#[trigger] services[k]),
    decreases services.len() - i,
{
    if i < services.len() {
        lemma_services(services, i + 1);
        law_services_are_accepted_iff_valid(services[i]);
    }
}

// ---------------------------------------------------------------
// Dependencies
// ---------------------------------------------------------------

/// True when service `i` names service `j` among its dependencies.
pub open spec fn needs(services: Seq<ServiceSpec>, i: int, j: int) -> bool {
    &&& 0 <= i < services.len()
    &&& 0 <= j < services.len()
    &&& exists|m: int|
        0 <= m < services[i].depends_on@.len() && (#[trigger] services[i].depends_on@[m])@
            == services[j].name@
}

/// True when every dependency of a service is the name of another service.
pub open spec fn has_known_dependencies(services: Seq<ServiceSpec>, i: int) -> bool {
    forall|m: int|
        0 <= m < services[i].depends_on@.len() ==> (#[trigger] services[i].depends_on@[m])@
            != services[i].name@ && is_service_name(services, services[i].depends_on@[m]@)
}

/// True when some service has a name.
pub open spec fn is_service_name(services: Seq<ServiceSpec>, name: Seq<char>) -> bool {
    exists|j: int| 0 <= j < services.len() && (#[trigger] services[j]).name@ == name
}

/// True when a path of dependencies leads from a service back to itself.
pub open spec fn needs_itself(services: Seq<ServiceSpec>) -> bool {
    exists|path: Seq<int>| is_needs_cycle(services, path)
}

/// True when each service of a path needs the one before it, and the path ends
/// where it begins.
pub open spec fn is_needs_cycle(services: Seq<ServiceSpec>, path: Seq<int>) -> bool {
    &&& path.len() >= 2
    &&& path.first() == path.last()
    &&& forall|i: int| 0 <= i < path.len() - 1 ==> needs(services, path[i + 1], #[trigger] path[i])
}

/// True when what a service that is started automatically needs is started
/// automatically too.
pub open spec fn auto_start_is_closed(services: Seq<ServiceSpec>) -> bool {
    forall|i: int, j: int|
        #[trigger] needs(services, i, j) && services[i].auto_start ==> services[j].auto_start
}

proof fn lemma_known(services: Seq<ServiceSpec>, name: Seq<char>)
    ensures
        provider(services, name) is Some <==> is_service_name(services, name),
        provider(services, name) matches Some(j) ==> 0 <= j < services.len() && services[j].name@
            == name,
{
    lemma_provider(services, name);
    if let Some(j) = provider(services, name) {
        assert(services[j].name@ == name);
    }
}

proof fn lemma_deps_of(services: Seq<ServiceSpec>, i: int, k: int)
    requires
        0 <= k <= services[i].depends_on@.len(),
    ensures
        deps_of_complaint(services, i, k) is None <==> forall|m: int|
            k <= m < services[i].depends_on@.len() ==> (#[trigger] services[i].depends_on@[m])@
                != services[i].name@ && is_service_name(services, services[i].depends_on@[m]@),
    decreases services[i].depends_on@.len() - k,
{
    if k < services[i].depends_on@.len() {
        lemma_deps_of(services, i, k + 1);
        lemma_known(services, services[i].depends_on@[k]@);
    }
}

proof fn lemma_deps(services: Seq<ServiceSpec>, i: int)
    requires
        0 <= i <= services.len(),
    ensures
        service_deps_complaint(services, i) is None <==> forall|k: int|
            #![trigger services[k]]
            i <= k < services.len() ==> has_known_dependencies(services, k),
    decreases services.len() - i,
{
    if i < services.len() {
        lemma_deps(services, i + 1);
        lemma_deps_of(services, i, 0);
        assert(services[i] == services[i]);
    }
}

/// Where no two services share a name, a service depends on another exactly when
/// it names it.
proof fn lemma_needs(services: Seq<ServiceSpec>, i: int, j: int)
    requires
        services_are_named(services),
    ensures
        depends(services, i, j) <==> needs(services, i, j),
{
    if depends(services, i, j) {
        let m = choose|m: int|
            0 <= m < services[i].depends_on@.len() && provider(
                services,
                (#[trigger] services[i].depends_on@[m])@,
            ) == Some(j);
        lemma_known(services, services[i].depends_on@[m]@);
        assert(services[i].depends_on@[m]@ == services[j].name@);
    }
    if needs(services, i, j) {
        let m = choose|m: int|
            0 <= m < services[i].depends_on@.len() && (#[trigger] services[i].depends_on@[m])@
                == services[j].name@;
        let name = services[j].name@;
        lemma_known(services, name);
        assert(services[j].name@ == name);
        let p = provider(services, name)->0;
        if p < j {
            assert(services[p].name@ != services[j].name@);
        } else if j < p {
            assert(services[j].name@ != services[p].name@);
        }
        assert(provider(services, services[i].depends_on@[m]@) == Some(j));
    }
}

proof fn lemma_auto_of(services: Seq<ServiceSpec>, i: int, k: int)
    requires
        services_are_named(services),
        0 <= i < services.len(),
        0 <= k <= services[i].depends_on@.len(),
    ensures
        auto_deps_of_complaint(services, i, k) is None <==> forall|m: int, j: int|
            k <= m < services[i].depends_on@.len() && 0 <= j < services.len() && (
            #[trigger] services[i].depends_on@[m])@ == (#[trigger] services[j]).name@
                ==> services[j].auto_start,
    decreases services[i].depends_on@.len() - k,
{
    if k < services[i].depends_on@.len() {
        lemma_auto_of(services, i, k + 1);
        let name = services[i].depends_on@[k]@;
        lemma_known(services, name);
        if let Some(p) = provider(services, name) {
            assert forall|j: int| 0 <= j < services.len() && (#[trigger] services[j]).name@
                == name implies j == p by {
                if j < p {
                    assert(services[j].name@ != services[p].name@);
                } else if p < j {
                    assert(services[p].name@ != services[j].name@);
                }
            }
            assert(services[p].name@ == services[i].depends_on@[k]@);
        }
    }
}

proof fn lemma_auto(services: Seq<ServiceSpec>, i: int)
    requires
        services_are_named(services),
        0 <= i <= services.len(),
    ensures
        auto_start_complaint(services, i) is None <==> forall|k: int, j: int|
            #![trigger needs(services, k, j)]
            i <= k && needs(services, k, j) && services[k].auto_start ==> services[j].auto_start,
    decreases services.len() - i,
{
    if i < services.len() {
        lemma_auto(services, i + 1);
        lemma_auto_of(services, i, 0);
        if auto_start_complaint(services, i) is None {
            assert forall|k: int, j: int|
                #![trigger needs(services, k, j)]
                i <= k && needs(services, k, j) && services[k].auto_start implies
                services[j].auto_start by {
                if k == i {
                    let m = choose|m: int|
                        0 <= m < services[i].depends_on@.len() && (
                        #[trigger] services[i].depends_on@[m])@ == services[j].name@;
                    assert(services[i].depends_on@[m]@ == services[j].name@);
                }
            }
        }
        if forall|k: int, j: int|
            #![trigger needs(services, k, j)]
            i <= k && needs(services, k, j) && services[k].auto_start ==> services[j].auto_start {
            if services[i].auto_start {
                assert forall|m: int, j: int|
                    0 <= m < services[i].depends_on@.len() && 0 <= j < services.len() && (
                    #[trigger] services[i].depends_on@[m])@ == (
                    #[trigger] services[j]).name@ implies services[j].auto_start by {
                    assert(needs(services, i, j));
                }
            }
        }
    }
}

proof fn lemma_cycles(services: Seq<ServiceSpec>)
    requires
        services_are_named(services),
    ensures
        has_dep_cycle(services) <==> needs_itself(services),
{
    if has_dep_cycle(services) {
        let path = choose|path: Seq<int>| is_dep_cycle(services, path);
        assert forall|i: int| 0 <= i < path.len() - 1 implies needs(
            services,
            path[i + 1],
            #[trigger] path[i],
        ) by {
            lemma_needs(services, path[i + 1], path[i]);
        }
        assert(is_needs_cycle(services, path));
    }
    if needs_itself(services) {
        let path = choose|path: Seq<int>| is_needs_cycle(services, path);
        assert forall|i: int| 0 <= i < path.len() - 1 implies depends(
            services,
            path[i + 1],
            #[trigger] path[i],
        ) by {
            lemma_needs(services, path[i + 1], path[i]);
        }
        assert(is_dep_cycle(services, path));
    }
}

// ---------------------------------------------------------------
// Host ports
// ---------------------------------------------------------------

/// True when a mapping listens on every address of the host: it has no address, or
/// one that stands for all.
pub open spec fn listens_everywhere(port: PortMapping) -> bool {
    match port.bind_address {
        None => true,
        Some(text) => match ip_value(text@) {
            None => true,
            Some(ip) => ip == IpAddr::V4(0) || ip == (IpAddr::V6 { high: 0, low: 0 }),
        },
    }
}

/// True when two mappings compete for a host port: they have the same port and the
/// same protocol, in any case, and one listens everywhere or both on the same
/// address.
pub open spec fn compete(a: PortMapping, b: PortMapping) -> bool {
    &&& a.host == b.host
    &&& lowercase_form(a.protocol@) == lowercase_form(b.protocol@)
    &&& listens_everywhere(a) || listens_everywhere(b) || ip_value(a.bind_address->0@) == ip_value(
        b.bind_address->0@,
    )
}

/// Two mappings are held to conflict exactly when they compete for a host port.
pub proof fn law_conflicts_are_competition(a: PortMapping, b: PortMapping)
    ensures
        ports_conflict(a, b) <==> compete(a, b),
{
}

/// True when no two mappings of a configuration compete: none of two clusters or of
/// one, none of two services or of one, and none of a cluster and a service.
pub open spec fn host_ports_are_free(config: ForgeConfig) -> bool {
    let clusters = config.spec.clusters@;
    let services = config.spec.services@;
    &&& forall|c: int, p: int, d: int, q: int|
        #![trigger clusters[c].ports@[p], clusters[d].ports@[q]]
        0 <= c < clusters.len() && 0 <= p < clusters[c].ports@.len() && 0 <= d < clusters.len() && 0
            <= q < clusters[d].ports@.len() && !(c == d && p == q) ==> !compete(
            clusters[c].ports@[p],
            clusters[d].ports@[q],
        )
    &&& forall|s: int, p: int, t: int, q: int|
        #![trigger services[s].ports@[p], services[t].ports@[q]]
        0 <= s < services.len() && 0 <= p < services[s].ports@.len() && 0 <= t < services.len() && 0
            <= q < services[t].ports@.len() && !(s == t && p == q) ==> !compete(
            services[s].ports@[p],
            services[t].ports@[q],
        )
    &&& forall|c: int, p: int, s: int, q: int|
        #![trigger clusters[c].ports@[p], services[s].ports@[q]]
        0 <= c < clusters.len() && 0 <= p < clusters[c].ports@.len() && 0 <= s < services.len() && 0
            <= q < services[s].ports@.len() ==> !compete(
            clusters[c].ports@[p],
            services[s].ports@[q],
        )
}

/// True when no two mappings, by their keys, compete.
spec fn no_keys_compete(config: ForgeConfig) -> bool {
    forall|x: PortKey, y: PortKey|
        #[trigger] has_port(config, x) && #[trigger] has_port(config, y) && x != y ==> !compete(
            port_of(config, x),
            port_of(config, y),
        )
}

proof fn lemma_keys(config: ForgeConfig)
    ensures
        no_keys_compete(config) <==> host_ports_are_free(config),
{
    let clusters = config.spec.clusters@;
    let services = config.spec.services@;
    if no_keys_compete(config) {
        assert forall|c: int, p: int, d: int, q: int|
            #![trigger clusters[c].ports@[p], clusters[d].ports@[q]]
            0 <= c < clusters.len() && 0 <= p < clusters[c].ports@.len() && 0 <= d < clusters.len()
                && 0 <= q < clusters[d].ports@.len() && !(c == d && p == q) implies !compete(
            clusters[c].ports@[p],
            clusters[d].ports@[q],
        ) by {
            assert(has_port(config, port_key(false, c, p)));
            assert(has_port(config, port_key(false, d, q)));
        }
        assert forall|s: int, p: int, t: int, q: int|
            #![trigger services[s].ports@[p], services[t].ports@[q]]
            0 <= s < services.len() && 0 <= p < services[s].ports@.len() && 0 <= t < services.len()
                && 0 <= q < services[t].ports@.len() && !(s == t && p == q) implies !compete(
            services[s].ports@[p],
            services[t].ports@[q],
        ) by {
            assert(has_port(config, port_key(true, s, p)));
            assert(has_port(config, port_key(true, t, q)));
        }
        assert forall|c: int, p: int, s: int, q: int|
            #![trigger clusters[c].ports@[p], services[s].ports@[q]]
            0 <= c < clusters.len() && 0 <= p < clusters[c].ports@.len() && 0 <= s < services.len()
                && 0 <= q < services[s].ports@.len() implies !compete(
            clusters[c].ports@[p],
            services[s].ports@[q],
        ) by {
            assert(has_port(config, port_key(false, c, p)));
            assert(has_port(config, port_key(true, s, q)));
        }
    }
    if host_ports_are_free(config) {
        assert forall|x: PortKey, y: PortKey|
            #[trigger] has_port(config, x) && #[trigger] has_port(config, y) && x != y implies
            !compete(port_of(config, x), port_of(config, y)) by {
            if !x.of_service && !y.of_service {
                assert(!compete(
                    clusters[x.owner].ports@[x.port],
                    clusters[y.owner].ports@[y.port],
                ));
            } else if x.of_service && y.of_service {
                assert(!compete(
                    services[x.owner].ports@[x.port],
                    services[y.owner].ports@[y.port],
                ));
            } else if x.of_service {
                assert(!compete(
                    clusters[y.owner].ports@[y.port],
                    services[x.owner].ports@[x.port],
                ));
            } else {
                assert(!compete(
                    clusters[x.owner].ports@[x.port],
                    services[y.owner].ports@[y.port],
                ));
            }
        }
    }
}

proof fn lemma_host_ports(config: ForgeConfig)
    ensures
        claims_complaint(all_claims(config), 0) is None <==> host_ports_are_free(config),
{
    law_bindings_are_accepted_in_any_order(config);
    lemma_keys(config);
    assert forall|x: PortKey, y: PortKey|
        #[trigger] has_port(config, x) && #[trigger] has_port(config, y) implies (ports_conflict(
        port_of(config, x),
        port_of(config, y),
    ) <==> compete(port_of(config, x), port_of(config, y))) by {
        law_conflicts_are_competition(port_of(config, x), port_of(config, y));
    }
}

// ---------------------------------------------------------------
// Steps
// ---------------------------------------------------------------

/// True when a namespace is a label, if there is one.
pub open spec fn is_namespace(namespace: Option<String>) -> bool {
    namespace matches Some(name) ==> is_label(name@)
}

/// True when the port of an upstream begins behind position `at`: a colon stands
/// there, and nothing but digits behind it.
pub open spec fn has_port_behind(value: Seq<char>, at: int) -> bool {
    &&& 0 <= at && at + 1 < value.len()
    &&& value[at] == ':'
    &&& forall|i: int| at < i < value.len() ==> '0' <= #[trigger] value[i] <= '9'
}

/// True for the host of an upstream: an IPv4 address, or labels with dots between
/// them.
pub open spec fn is_upstream_host(host: Seq<char>) -> bool {
    &&& host.len() > 0
    &&& ipv4_value(host) is Some || forall|i: int|
        0 <= i < split_on(host, '.').len() ==> is_label(#[trigger] split_on(host, '.')[i])
}

/// True for an upstream: a host of a DNS server, with or without a port from 1 to
/// 65535, in at most 253 bytes.
pub open spec fn is_upstream(value: Seq<char>) -> bool {
    &&& !is_blank(value)
    &&& byte_len(value) <= 253
    &&& if exists|at: int| has_port_behind(value, at) {
        exists|at: int| #[trigger] has_port_behind(value, at) && is_upstream_host(value.take(at))
            && 1 <= digits_value(value.skip(at + 1)) <= 65535
    } else {
        is_upstream_host(value)
    }
}

/// True when a step meets the rule for its type.
pub open spec fn is_step(step: StepSpec) -> bool
    decreases step,
{
    match step {
        StepSpec::Url { url, sha256 } => begins_with(url@, "https://"@) && is_digest(sha256@),
        StepSpec::Manifest { path } => is_inner_path(path@),
        StepSpec::Kustomize { path } => is_inner_path(path@),
        StepSpec::TemplateManifest { path } => is_inner_path(path@),
        StepSpec::TemplateFile { source, target } => is_inner_path(source@) && is_inner_path(
            target@,
        ),
        StepSpec::Helm { release, chart, version, namespace, .. } => is_label(release@)
            && is_argument(chart@) && is_argument(version@) && is_namespace(namespace),
        StepSpec::Deployment { name, image, namespace, .. } => is_label(name@) && !is_blank(image@)
            && is_namespace(namespace),
        StepSpec::Service { name, port, namespace } => is_label(name@) && port != 0
            && is_namespace(namespace),
        StepSpec::Wait { resource, condition, timeout, .. } => is_argument(resource@) && !is_blank(
            condition@,
        ) && is_duration(timeout@),
        StepSpec::Exec { command, env } => {
            &&& command@.len() > 0
            &&& forall|i: int| 0 <= i < command@.len() ==> !is_blank((#[trigger] command@[i])@)
            &&& forall|i: int|
                0 <= i < env@.len() ==> is_identifier((#[trigger] env@[i]).0) && !is_blank(
                    env@[i].1@,
                )
        },
        StepSpec::ForEach { property, steps } => {
            &&& !is_blank(property@)
            &&& steps.len() > 0
            &&& forall|i: int| 0 <= i < steps.len() ==> is_step(#[trigger] steps[i])
        },
        StepSpec::MetallbAutoPool { name } => is_label(name@),
        StepSpec::CoreDnsForward { zone, upstreams } => {
            &&& is_zone(zone@)
            &&& upstreams@.len() > 0
            &&& forall|i: int| 0 <= i < upstreams@.len() ==> is_upstream((#[trigger] upstreams@[i])@)
        },
        StepSpec::Capture { resource, namespace, jsonpath, key, timeout, interval } => {
            &&& is_argument(resource@)
            &&& !is_blank(jsonpath@)
            &&& !is_blank(key@)
            &&& forall|i: int| 0 <= i < key@.len() ==> #[trigger] key@[i] != '.'
            &&& is_duration(timeout@)
            &&& is_duration(interval@)
            &&& is_namespace(namespace)
        },
    }
}

proof fn lemma_namespace(stack: Seq<char>, namespace: Option<String>)
    ensures
        crate::config::validate::steps::namespace_complaint(stack, opt_text(namespace)) is None
            <==> is_namespace(namespace),
{
    if let Some(name) = namespace {
        lemma_label(
            name@,
            crate::config::validate::steps::stack_context(stack, "namespace"@),
        );
    }
}

proof fn lemma_last_position(s: Seq<char>, c: char)
    ensures
        match last_position(s, c) {
            Some(at) => 0 <= at < s.len() && s[at] == c && forall|i: int|
                at < i < s.len() ==> #[trigger] s[i] != c,
            None => forall|i: int| 0 <= i < s.len() ==> #[trigger] s[i] != c,
        },
    decreases s.len(),
{
    if s.len() > 0 && s.last() != c {
        let rest = s.drop_last();
        lemma_last_position(rest, c);
        if let Some(at) = last_position(rest, c) {
            assert forall|i: int| at < i < s.len() implies #[trigger] s[i] != c by {
                if i < rest.len() {
                    assert(rest[i] == s[i]);
                }
            }
        } else {
            assert forall|i: int| 0 <= i < s.len() implies #[trigger] s[i] != c by {
                if i < rest.len() {
                    assert(rest[i] == s[i]);
                }
            }
        }
    }
}

proof fn lemma_labels(labels: Seq<Seq<char>>, i: int, context: Seq<char>)
    requires
        0 <= i <= labels.len(),
    ensures
        labels_complaint(labels, i, context) is None <==> forall|k: int|
            i <= k < labels.len() ==> is_label(#[trigger] labels[k]),
    decreases labels.len() - i,
{
    if i < labels.len() {
        lemma_labels(labels, i + 1, context);
        lemma_label(labels[i], context);
    }
}

proof fn lemma_upstream_host(host: Seq<char>, context: Seq<char>)
    ensures
        upstream_host_complaint(host, context) is None <==> is_upstream_host(host),
{
    lemma_labels(split_on(host, '.'), 0, context);
}

proof fn lemma_upstream(value: Seq<char>, stack: Seq<char>)
    ensures
        upstream_complaint(value, stack) is None <==> is_upstream(value),
{
    let context = crate::config::validate::steps::stack_context(
        stack,
        "coredns-forward upstream"@,
    );
    lemma_last_position(value, ':');
    lemma_upstream_host(upstream_parts(value).0, context);
    match upstream_parts(value).1 {
        Some(port) => {
            let at = last_position(value, ':')->0;
            assert(port == value.skip(at + 1));
            assert forall|i: int| at < i < value.len() implies '0' <= #[trigger] value[i] <= '9' by {
                assert(in_class(CharClass::Digit, port[i - at - 1]));
            }
            assert(has_port_behind(value, at));
            assert forall|other: int| #[trigger] has_port_behind(value, other) implies other
                == at by {
                if other < at {
                    assert('0' <= value[at] <= '9');
                } else if at < other {
                    assert('0' <= value[other] <= '9');
                }
            }
            assert(port[0] == value[at + 1]);
            assert(!first_is(port, '+'));
            assert(all_in(CharClass::Digit, port));
        },
        None => {
            if exists|at: int| has_port_behind(value, at) {
                let at = choose|at: int| has_port_behind(value, at);
                let last = last_position(value, ':')->0;
                if at < last {
                    assert('0' <= value[last] <= '9');
                }
                assert(last == at);
                let port = value.skip(at + 1);
                assert forall|i: int| 0 <= i < port.len() implies in_class(
                    CharClass::Digit,
                    #[trigger] port[i],
                ) by {
                    assert('0' <= value[at + 1 + i] <= '9');
                }
                assert(all_in(CharClass::Digit, port));
            }
        },
    }
}

proof fn lemma_upstreams(upstreams: Seq<String>, i: int, stack: Seq<char>)
    requires
        0 <= i <= upstreams.len(),
    ensures
        upstreams_complaint(upstreams, i, stack) is None <==> forall|k: int|
            i <= k < upstreams.len() ==> is_upstream((#[trigger] upstreams[k])@),
    decreases upstreams.len() - i,
{
    if i < upstreams.len() {
        lemma_upstreams(upstreams, i + 1, stack);
        lemma_upstream(upstreams[i]@, stack);
    }
}

proof fn lemma_exec_args(stack: Seq<char>, command: Seq<String>, i: int)
    requires
        0 <= i <= command.len(),
    ensures
        exec_args_complaint(stack, command, i) is None <==> forall|k: int|
            i <= k < command.len() ==> !is_blank((#[trigger] command[k])@),
    decreases command.len() - i,
{
    if i < command.len() {
        lemma_exec_args(stack, command, i + 1);
    }
}

proof fn lemma_exec_env(stack: Seq<char>, env: Seq<(Seq<char>, String)>, i: int)
    requires
        0 <= i <= env.len(),
    ensures
        exec_env_complaint(stack, env, i) is None <==> forall|k: int|
            i <= k < env.len() ==> is_identifier((#[trigger] env[k]).0) && !is_blank(env[k].1@),
    decreases env.len() - i,
{
    if i < env.len() {
        lemma_exec_env(stack, env, i + 1);
        lemma_identifier(env[i].0);
        if is_identifier(env[i].0) {
            assert(!crate::text::is_white_space(env[i].0[0]));
        }
    }
}

proof fn lemma_steps(stack: Seq<char>, steps: Vec<StepSpec>, i: int)
    requires
        0 <= i <= steps@.len(),
    ensures
        steps_complaint(stack, steps, i) is None <==> forall|k: int|
            i <= k < steps@.len() ==> is_step(#[trigger] steps@[k]),
    decreases steps, steps@.len() - i,
{
    if i < steps@.len() {
        lemma_steps(stack, steps, i + 1);
        law_steps_are_accepted_iff_valid(stack, steps@[i]);
    }
}

/// A step is accepted exactly when it meets the rule for its type, and, if it
/// repeats other steps, each of these meets the rule for its own.
#[verifier::rlimit(40)]
pub proof fn law_steps_are_accepted_iff_valid(stack: Seq<char>, step: StepSpec)
    ensures
        step_complaint(stack, step) is None <==> is_step(step),
    decreases step, 0int,
{
    match step {
        StepSpec::Url { url, sha256 } => {
            lemma_digest(
                sha256@,
                crate::config::validate::steps::stack_context(stack, "sha256"@),
            );
            reveal_strlit("https://");
            if begins_with(url@, "https://"@) {
                assert(url@.subrange(0, 8)[0] == url@[0]);
                assert(!crate::text::is_white_space(url@[0]));
            }
        },
        StepSpec::Manifest { path } => {},
        StepSpec::Kustomize { path } => {},
        StepSpec::TemplateManifest { path } => {},
        StepSpec::TemplateFile { source, target } => {},
        StepSpec::Helm { release, chart, version, namespace, .. } => {
            lemma_label(
                release@,
                crate::config::validate::steps::stack_context(stack, "helm release"@),
            );
            lemma_namespace(stack, namespace);
        },
        StepSpec::Deployment { name, image, namespace, .. } => {
            lemma_label(
                name@,
                crate::config::validate::steps::stack_context(stack, "deployment"@ + " name"@),
            );
            lemma_namespace(stack, namespace);
        },
        StepSpec::Service { name, port, namespace } => {
            lemma_label(
                name@,
                crate::config::validate::steps::stack_context(stack, "service"@ + " name"@),
            );
            lemma_namespace(stack, namespace);
        },
        StepSpec::Wait { resource, condition, timeout, .. } => {
            lemma_duration(
                timeout@,
                crate::config::validate::steps::stack_context(stack, "wait timeout"@),
            );
        },
        StepSpec::Exec { command, env } => {
            lemma_exec_args(stack, command@, 0);
            lemma_exec_env(stack, env@, 0);
        },
        StepSpec::ForEach { property, steps } => {
            lemma_steps(stack, steps, 0);
            assert(for_each_complaint(stack, property@, steps) is None <==> !is_blank(property@)
                && steps@.len() > 0 && steps_complaint(stack, steps, 0) is None);
            lemma_repeated(step);
        },
        StepSpec::MetallbAutoPool { name } => {
            lemma_label(
                name@,
                crate::config::validate::steps::stack_context(stack, "metallb pool"@ + " name"@),
            );
        },
        StepSpec::CoreDnsForward { zone, upstreams } => {
            lemma_zone(zone@);
            lemma_upstreams(upstreams@, 0, stack);
            if is_zone(zone@) {
                assert(!crate::text::is_white_space(zone@[0]));
            }
        },
        StepSpec::Capture { resource, namespace, jsonpath, key, timeout, interval } => {
            lemma_duration(
                timeout@,
                crate::config::validate::steps::stack_context(stack, "capture timeout"@),
            );
            lemma_duration(
                interval@,
                crate::config::validate::steps::stack_context(stack, "capture interval"@),
            );
            lemma_namespace(stack, namespace);
            if key@.contains('.') {
                let i = choose|i: int| 0 <= i < key@.len() && key@[i] == '.';
                assert(key@[i] == '.');
            }
        },
    }
}

/// What it takes for a repetition to be valid.
proof fn lemma_repeated(step: StepSpec)
    ensures
        step matches StepSpec::ForEach { property, steps } ==> (is_step(step) <==> {
            &&& !is_blank(property@)
            &&& steps@.len() > 0
            &&& forall|i: int| 0 <= i < steps@.len() ==> is_step(#[trigger] steps@[i])
        }),
{
    match step {
        StepSpec::ForEach { property, steps } => {
            if is_step(step) {
                assert forall|i: int| 0 <= i < steps@.len() implies is_step(#[trigger] steps@[i]) by {
                    assert(is_step(steps[i]));
                }
            }
            if forall|i: int| 0 <= i < steps@.len() ==> is_step(#[trigger] steps@[i]) {
                assert forall|i: int| 0 <= i < steps.len() implies is_step(#[trigger] steps[i]) by {
                    assert(is_step(steps@[i]));
                }
            }
        },
        _ => {},
    }
}

/// True when every stack has a label for its name.
pub open spec fn stacks_are_named(stacks: Seq<(Seq<char>, StackSpec)>) -> bool {
    forall|i: int| 0 <= i < stacks.len() ==> is_label((#[trigger] stacks[i]).0)
}

proof fn lemma_stacks_named(stacks: Seq<(Seq<char>, StackSpec)>, i: int)
    requires
        0 <= i <= stacks.len(),
    ensures
        stack_names_complaint(stacks, i) is None <==> forall|k: int|
            i <= k < stacks.len() ==> is_label((#[trigger] stacks[k]).0),
    decreases stacks.len() - i,
{
    if i < stacks.len() {
        lemma_stacks_named(stacks, i + 1);
        lemma_label(stacks[i].0, "stack"@);
    }
}

/// True when every step of a stack meets the rule for its type.
pub open spec fn has_valid_steps(stack: StackSpec) -> bool {
    forall|i: int| 0 <= i < stack.steps@.len() ==> is_step(#[trigger] stack.steps@[i])
}

proof fn lemma_stack_steps(stacks: Seq<(Seq<char>, StackSpec)>, i: int)
    requires
        0 <= i <= stacks.len(),
    ensures
        stack_steps_complaint(stacks, i) is None <==> forall|k: int|
            i <= k < stacks.len() ==> has_valid_steps((#[trigger] stacks[k]).1),
    decreases stacks.len() - i,
{
    if i < stacks.len() {
        lemma_stack_steps(stacks, i + 1);
        lemma_steps(stacks[i].0, stacks[i].1.steps, 0);
    }
}

// ---------------------------------------------------------------
// Environment
// ---------------------------------------------------------------

/// True when the clusters of a configuration share a network.
pub open spec fn shares_network(config: ForgeConfig) -> bool {
    config.spec.network matches Some(network) && network.cross_cluster
}

/// True when a step forwards DNS, or repeats a step that does.
pub open spec fn forwards(step: StepSpec) -> bool
    decreases step,
{
    match step {
        StepSpec::CoreDnsForward { .. } => true,
        StepSpec::ForEach { steps, .. } => !(forall|i: int|
            0 <= i < steps.len() ==> !forwards(#[trigger] steps[i])),
        _ => false,
    }
}

proof fn lemma_forwards(step: StepSpec)
    ensures
        step_forwards_dns(step) <==> forwards(step),
    decreases step,
{
    match step {
        StepSpec::ForEach { steps, .. } => {
            assert forall|i: int| 0 <= i < steps.len() implies (step_forwards_dns(
                #[trigger] steps[i],
            ) <==> forwards(steps[i])) by {
                lemma_forwards(steps[i]);
            }
            if step_forwards_dns(step) {
                let j = choose|j: int| 0 <= j < steps.len() && step_forwards_dns(#[trigger] steps[j]);
                assert(forwards(steps[j]));
            }
            if forwards(step) {
                let j = choose|j: int| 0 <= j < steps.len() && forwards(#[trigger] steps[j]);
                assert(step_forwards_dns(steps[j]));
            }
        },
        _ => {},
    }
}

/// True when no stack of a list holds a step that forwards DNS.
pub open spec fn nothing_is_forwarded(stacks: Seq<(Seq<char>, StackSpec)>) -> bool {
    forall|k: int, i: int|
        0 <= k < stacks.len() && 0 <= i < stacks[k].1.steps@.len() ==> !forwards(
            #[trigger] stacks[k].1.steps@[i],
        )
}

proof fn lemma_forwarding(stacks: Seq<(Seq<char>, StackSpec)>, from: int)
    requires
        0 <= from <= stacks.len(),
    ensures
        forwarding_complaint(stacks, from) is None <==> forall|k: int, i: int|
            from <= k < stacks.len() && 0 <= i < stacks[k].1.steps@.len() ==> !forwards(
                #[trigger] stacks[k].1.steps@[i],
            ),
    decreases stacks.len() - from,
{
    if from < stacks.len() {
        lemma_forwarding(stacks, from + 1);
        let steps = stacks[from].1.steps@;
        assert forall|i: int| 0 <= i < steps.len() implies (step_forwards_dns(#[trigger] steps[i])
            <==> forwards(steps[i])) by {
            lemma_forwards(steps[i]);
        }
        if crate::config::validate::forwards_dns(stacks[from].1) {
            let j = choose|j: int| 0 <= j < steps.len() && step_forwards_dns(#[trigger] steps[j]);
            assert(forwards(stacks[from].1.steps@[j]));
        } else {
            assert forall|i: int| 0 <= i < steps.len() implies !forwards(#[trigger] steps[i]) by {
                assert(!step_forwards_dns(steps[i]));
            }
        }
    }
}

/// True when no service of a list is on the shared network.
pub open spec fn none_is_attached(services: Seq<ServiceSpec>) -> bool {
    forall|i: int|
        0 <= i < services.len() ==> (#[trigger] services[i]).network != NetworkMode::Environment
}

proof fn lemma_attached(services: Seq<ServiceSpec>, i: int)
    requires
        0 <= i <= services.len(),
    ensures
        attached_complaint(services, i) is None <==> forall|k: int|
            i <= k < services.len() ==> (#[trigger] services[k]).network
                != NetworkMode::Environment,
    decreases services.len() - i,
{
    if i < services.len() {
        lemma_attached(services, i + 1);
    }
}

/// True when a configured zone is a DNS zone.
pub open spec fn zone_is_valid(config: ForgeConfig) -> bool {
    config.spec.network matches Some(network) ==> (network.dns_zone matches Some(zone) ==> is_zone(
        zone@,
    ))
}

// ---------------------------------------------------------------
// Acceptance
// ---------------------------------------------------------------

/// True when a configuration meets every rule.
pub open spec fn meets_every_rule(config: ForgeConfig) -> bool {
    let clusters = config.spec.clusters@;
    let services = config.spec.services@;
    let stacks = config.spec.stacks@;
    &&& config.api_version@ == "forge.praxis.dev/v1alpha1"@
    &&& config.kind@ == "Environment"@
    &&& is_label(config.metadata.name@)
    &&& shares_network(config) ==> is_resource_name(config.metadata.name@ + "-net"@)
    &&& clusters_are_named(clusters)
    &&& kind_names_are_valid(config.spec.runtime.cluster_prefix@, clusters)
    &&& forall|i: int| 0 <= i < clusters.len() ==> has_valid_nodes(#[trigger] clusters[i])
    &&& forall|i: int| 0 <= i < clusters.len() ==> has_valid_ports(#[trigger] clusters[i])
    &&& services_are_named(services)
    &&& forall|i: int| 0 <= i < services.len() ==> is_service(#[trigger] services[i])
    &&& forall|i: int|
        #![trigger services[i]]
        0 <= i < services.len() ==> has_known_dependencies(services, i)
    &&& auto_start_is_closed(services)
    &&& !needs_itself(services)
    &&& host_ports_are_free(config)
    &&& stacks_are_named(stacks)
    &&& forall|i: int| 0 <= i < clusters.len() ==> refers_to_stacks(#[trigger] clusters[i], stacks)
    &&& forall|i: int| 0 <= i < stacks.len() ==> has_valid_steps((#[trigger] stacks[i]).1)
    &&& zone_is_valid(config)
    &&& shares_network(config) || nothing_is_forwarded(stacks)
    &&& shares_network(config) || none_is_attached(services)
    &&& shares_network(config) ==> config.spec.runtime.provider != RuntimeProvider::Podman
    &&& config.spec.certificates matches Some(certificates) ==> !certificates.enabled
    &&& !mentions_template(config_json(config, Seq::<(Seq<char>, StackSpec)>::empty()))
}

/// Validation accepts exactly the configurations that meet every rule: none that
/// breaks one is let through, and none that meets them all is refused.
pub proof fn law_accepted_iff_every_rule_is_met(config: ForgeConfig)
    ensures
        accepted(config) <==> meets_every_rule(config),
{
    lemma_identity(config);
    lemma_all_clusters(config);
    lemma_all_services(config);
    lemma_host_ports(config);
    lemma_all_stacks(config);
    lemma_environment(config);
}

proof fn lemma_identity(config: ForgeConfig)
    ensures
        crate::config::validate::identity_complaint(config) is None <==> {
            &&& config.api_version@ == "forge.praxis.dev/v1alpha1"@
            &&& config.kind@ == "Environment"@
            &&& is_label(config.metadata.name@)
            &&& shares_network(config) ==> is_resource_name(config.metadata.name@ + "-net"@)
        },
{
    lemma_label(config.metadata.name@, "metadata.name"@);
    lemma_resource_name(config.metadata.name@ + "-net"@, "derived network name"@);
}

proof fn lemma_all_clusters(config: ForgeConfig)
    ensures
        crate::config::validate::all_clusters_complaint(config) is None <==> {
            let clusters = config.spec.clusters@;
            &&& clusters_are_named(clusters)
            &&& kind_names_are_valid(config.spec.runtime.cluster_prefix@, clusters)
            &&& forall|i: int| 0 <= i < clusters.len() ==> has_valid_nodes(#[trigger] clusters[i])
            &&& forall|i: int| 0 <= i < clusters.len() ==> has_valid_ports(#[trigger] clusters[i])
        },
{
    let clusters = config.spec.clusters@;
    lemma_clusters_named(clusters, 0);
    lemma_label(config.spec.runtime.cluster_prefix@, "runtime.clusterPrefix"@);
    lemma_kind_names(config.spec.runtime.cluster_prefix@, clusters, 0);
    lemma_nodes(clusters, 0);
    lemma_cluster_ports(clusters, 0);
}

proof fn lemma_all_services(config: ForgeConfig)
    ensures
        crate::config::validate::all_services_complaint(config) is None <==> {
            let services = config.spec.services@;
            &&& services_are_named(services)
            &&& forall|i: int| 0 <= i < services.len() ==> is_service(#[trigger] services[i])
            &&& forall|i: int|
                #![trigger services[i]]
                0 <= i < services.len() ==> has_known_dependencies(services, i)
            &&& auto_start_is_closed(services)
            &&& !needs_itself(services)
        },
{
    let services = config.spec.services@;
    lemma_services_named(services, 0);
    lemma_services(services, 0);
    lemma_deps(services, 0);
    if services_are_named(services) {
        lemma_auto(services, 0);
        lemma_cycles(services);
    }
}

proof fn lemma_all_stacks(config: ForgeConfig)
    ensures
        crate::config::validate::all_stacks_complaint(config) is None <==> {
            let clusters = config.spec.clusters@;
            let stacks = config.spec.stacks@;
            &&& stacks_are_named(stacks)
            &&& forall|i: int|
                0 <= i < clusters.len() ==> refers_to_stacks(#[trigger] clusters[i], stacks)
            &&& forall|i: int| 0 <= i < stacks.len() ==> has_valid_steps((#[trigger] stacks[i]).1)
        },
{
    lemma_stacks_named(config.spec.stacks@, 0);
    lemma_cluster_refs(config.spec.clusters@, config.spec.stacks@, 0);
    lemma_stack_steps(config.spec.stacks@, 0);
}

proof fn lemma_environment(config: ForgeConfig)
    ensures
        crate::config::validate::environment_complaint(config) is None <==> {
            &&& zone_is_valid(config)
            &&& shares_network(config) || nothing_is_forwarded(config.spec.stacks@)
            &&& shares_network(config) || none_is_attached(config.spec.services@)
            &&& shares_network(config) ==> config.spec.runtime.provider != RuntimeProvider::Podman
            &&& config.spec.certificates matches Some(certificates) ==> !certificates.enabled
            &&& !mentions_template(config_json(config, Seq::<(Seq<char>, StackSpec)>::empty()))
        },
{
    if let Some(network) = config.spec.network {
        if let Some(zone) = network.dns_zone {
            lemma_zone(zone@);
        }
    }
    lemma_forwarding(config.spec.stacks@, 0);
    lemma_attached(config.spec.services@, 0);
    lemma_template_path_found(
        config_json(config, Seq::<(Seq<char>, StackSpec)>::empty()),
        "$"@,
    );
}

} // verus!
