//! Rules for the fields of a service.

use vstd::prelude::*;
use vstd::string::*;
use crate::config::{ForgeConfig, HealthCheck, NetworkMode, PortMapping, ServiceSpec, VolumeMount};
use crate::config::validate::fields::{
    check_duration_string, check_non_blank, check_relative_path, duration_complaint,
    is_shell_safe_ident, non_blank_complaint, relative_path_complaint, shell_safe_ident,
};
use crate::config::validate::names::{check_dns_label, dns_label_complaint};
use crate::error::{first_complaint, invalid, verdict, Complaint, ForgeError};
use crate::ip::{ip_value, parse_ip};
use crate::numeral::{decimal, to_decimal};
use crate::text::{
    byte_len, debug_form, first_is, join2, join3, join4, quoted, same_text, starts_with_char,
    utf8_len,
};

verus! {

/// The opening words of a complaint about a service.
pub open spec fn service_context(service: Seq<char>, what: Seq<char>) -> Seq<char> {
    "service "@ + debug_form(service) + ": "@ + what
}

/// Renders the opening words of a complaint about a service.
pub(crate) fn in_service(svc_name: &str, what: &str) -> (r: String)
    ensures
        r@ == service_context(svc_name@, what@),
{
    join4("service ", &quoted(svc_name), ": ", what)
}

// ---------------------------------------------------------------
// Names
// ---------------------------------------------------------------

/// True when an earlier service has the name of service `i`.
pub open spec fn service_named_before(services: Seq<ServiceSpec>, i: int) -> bool {
    exists|j: int| 0 <= j < i && (#[trigger] services[j]).name@ == services[i].name@
}

/// What is wrong with the service names from position `i` on.
pub open spec fn service_names_complaint(services: Seq<ServiceSpec>, i: int) -> Complaint
    decreases services.len() - i,
{
    if i < 0 || i >= services.len() {
        None
    } else {
        first_complaint(
            dns_label_complaint(services[i].name@, "service"@),
            if service_named_before(services, i) {
                Some("duplicate service name: "@ + debug_form(services[i].name@))
            } else {
                service_names_complaint(services, i + 1)
            },
        )
    }
}

fn is_service_named_before(services: &Vec<ServiceSpec>, i: usize) -> (r: bool)
    requires
        i < services@.len(),
    ensures
        r == service_named_before(services@, i as int),
{
    let mut j: usize = 0;
    while j < i
        invariant
            j <= i,
            i < services@.len(),
            forall|k: int| 0 <= k < j ==> (#[trigger] services@[k]).name@ != services@[i as int].name@,
        decreases i - j,
    {
        if same_text(&services[j].name, &services[i].name) {
            return true;
        }
        j += 1;
    }
    false
}

/// Service names must be unique and DNS-label-valid.
pub fn check_service_names(config: &ForgeConfig) -> (r: Result<(), ForgeError>)
    ensures
        verdict(r, service_names_complaint(config.spec.services@, 0)),
{
    let services = &config.spec.services;
    let mut i: usize = 0;
    while i < services.len()
        invariant
            services@ == config.spec.services@,
            i <= services@.len(),
            service_names_complaint(services@, 0) == service_names_complaint(services@, i as int),
        decreases services.len() - i,
    {
        check_dns_label(&services[i].name, "service")?;
        if is_service_named_before(services, i) {
            return invalid(join2("duplicate service name: ", &quoted(&services[i].name)));
        }
        i += 1;
    }
    Ok(())
}

// ---------------------------------------------------------------
// Image
// ---------------------------------------------------------------

/// What is wrong with the image of a service.
pub open spec fn service_image_complaint(svc: ServiceSpec) -> Complaint {
    let context = service_context(svc.name@, "image"@);
    first_complaint(
        non_blank_complaint(svc.image@, context),
        if byte_len(svc.image@) > 512 {
            Some(context + ": exceeds 512 characters"@)
        } else if first_is(svc.image@, '-') {
            Some(context + ": must not start with '-'"@)
        } else {
            None
        },
    )
}

/// Validate the container image field of a service.
pub fn check_service_image(svc: &ServiceSpec) -> (r: Result<(), ForgeError>)
    ensures
        verdict(r, service_image_complaint(*svc)),
{
    let ctx = in_service(&svc.name, "image");
    check_non_blank(&svc.image, &ctx)?;
    if utf8_len(&svc.image) > 512 {
        return invalid(join2(&ctx, ": exceeds 512 characters"));
    }
    if starts_with_char(&svc.image, '-') {
        return invalid(join2(&ctx, ": must not start with '-'"));
    }
    Ok(())
}

// ---------------------------------------------------------------
// Ports
// ---------------------------------------------------------------

/// What is wrong with a port number.
pub open spec fn port_nonzero_complaint(
    port: u16,
    service: Seq<char>,
    field: Seq<char>,
) -> Complaint {
    if port == 0 {
        Some(service_context(service, field + " port must not be zero"@))
    } else {
        None
    }
}

/// Reject port number zero.
pub fn check_port_nonzero(port: u16, svc_name: &str, field: &str) -> (r: Result<(), ForgeError>)
    ensures
        verdict(r, port_nonzero_complaint(port, svc_name@, field@)),
{
    if port == 0 {
        return invalid(in_service(svc_name, &join2(field, " port must not be zero")));
    }
    Ok(())
}

/// What is wrong with the bind address of a service port.
pub open spec fn port_bind_complaint(addr: Option<String>, service: Seq<char>) -> Complaint {
    match addr {
        Some(text) => if ip_value(text@) is None {
            Some(
                service_context(
                    service,
                    "bind address "@ + debug_form(text@) + " is not a valid IP"@,
                ),
            )
        } else {
            None
        },
        None => None,
    }
}

/// Validate an optional bind address as a valid IP.
pub fn check_port_bind_address(addr: &Option<String>, svc_name: &str) -> (r: Result<
    (),
    ForgeError,
>)
    ensures
        verdict(r, port_bind_complaint(*addr, svc_name@)),
{
    if let Some(text) = addr {
        if parse_ip(text).is_none() {
            return invalid(
                in_service(
                    svc_name,
                    &join3("bind address ", &quoted(text), " is not a valid IP"),
                ),
            );
        }
    }
    Ok(())
}

/// What is wrong with the protocol of a service port.
pub open spec fn port_tcp_complaint(protocol: Seq<char>, service: Seq<char>) -> Complaint {
    if protocol == "tcp"@ {
        None
    } else {
        Some(
            service_context(
                service,
                "unsupported port protocol "@ + debug_form(protocol) + " (expected tcp)"@,
            ),
        )
    }
}

/// Service ports carry TCP only.
pub fn check_port_protocol_tcp(protocol: &str, svc_name: &str) -> (r: Result<(), ForgeError>)
    ensures
        verdict(r, port_tcp_complaint(protocol@, svc_name@)),
{
    if !same_text(protocol, "tcp") {
        return invalid(
            in_service(
                svc_name,
                &join3("unsupported port protocol ", &quoted(protocol), " (expected tcp)"),
            ),
        );
    }
    Ok(())
}

/// What is wrong with one service port.
pub open spec fn service_port_complaint(port: PortMapping, service: Seq<char>) -> Complaint {
    first_complaint(
        port_nonzero_complaint(port.host, service, "host"@),
        first_complaint(
            port_nonzero_complaint(port.container, service, "container"@),
            first_complaint(
                port_bind_complaint(port.bind_address, service),
                port_tcp_complaint(port.protocol@, service),
            ),
        ),
    )
}

/// What is wrong with the ports of a service from position `i` on.
pub open spec fn service_ports_complaint(svc: ServiceSpec, i: int) -> Complaint
    decreases svc.ports.len() - i,
{
    if i < 0 || i >= svc.ports.len() {
        None
    } else {
        first_complaint(
            service_port_complaint(svc.ports[i], svc.name@),
            service_ports_complaint(svc, i + 1),
        )
    }
}

/// Validate all port mappings on a service.
pub fn check_service_ports(svc: &ServiceSpec) -> (r: Result<(), ForgeError>)
    ensures
        verdict(r, service_ports_complaint(*svc, 0)),
{
    let mut i: usize = 0;
    while i < svc.ports.len()
        invariant
            i <= svc.ports@.len(),
            service_ports_complaint(*svc, 0) == service_ports_complaint(*svc, i as int),
        decreases svc.ports.len() - i,
    {
        let port = &svc.ports[i];
        check_port_nonzero(port.host, &svc.name, "host")?;
        check_port_nonzero(port.container, &svc.name, "container")?;
        check_port_bind_address(&port.bind_address, &svc.name)?;
        check_port_protocol_tcp(&port.protocol, &svc.name)?;
        i += 1;
    }
    Ok(())
}

// ---------------------------------------------------------------
// Volumes
// ---------------------------------------------------------------

/// What is wrong with the target of a volume.
pub open spec fn volume_target_complaint(target: Seq<char>, service: Seq<char>) -> Complaint {
    if target.len() == 0 {
        Some(service_context(service, "volume target must not be empty"@))
    } else if !first_is(target, '/') {
        Some(service_context(service, "volume target must be an absolute path"@))
    } else {
        None
    }
}

/// Volume target must be a non-empty absolute path.
pub fn check_volume_target(target: &str, svc_name: &str) -> (r: Result<(), ForgeError>)
    ensures
        verdict(r, volume_target_complaint(target@, svc_name@)),
{
    if target.unicode_len() == 0 {
        return invalid(in_service(svc_name, "volume target must not be empty"));
    }
    if !starts_with_char(target, '/') {
        return invalid(in_service(svc_name, "volume target must be an absolute path"));
    }
    Ok(())
}

/// What is wrong with one volume.
pub open spec fn volume_complaint(vol: VolumeMount, service: Seq<char>) -> Complaint {
    first_complaint(
        relative_path_complaint(vol.source@, service_context(service, "volume source"@)),
        volume_target_complaint(vol.target@, service),
    )
}

/// What is wrong with the volumes of a service from position `i` on.
pub open spec fn service_volumes_complaint(svc: ServiceSpec, i: int) -> Complaint
    decreases svc.volumes.len() - i,
{
    if i < 0 || i >= svc.volumes.len() {
        None
    } else {
        first_complaint(
            volume_complaint(svc.volumes[i], svc.name@),
            service_volumes_complaint(svc, i + 1),
        )
    }
}

/// Validate all volume mounts on a service.
pub fn check_service_volumes(svc: &ServiceSpec) -> (r: Result<(), ForgeError>)
    ensures
        verdict(r, service_volumes_complaint(*svc, 0)),
{
    let mut i: usize = 0;
    while i < svc.volumes.len()
        invariant
            i <= svc.volumes@.len(),
            service_volumes_complaint(*svc, 0) == service_volumes_complaint(*svc, i as int),
        decreases svc.volumes.len() - i,
    {
        let vol = &svc.volumes[i];
        check_relative_path(&vol.source, &in_service(&svc.name, "volume source"))?;
        check_volume_target(&vol.target, &svc.name)?;
        i += 1;
    }
    Ok(())
}

// ---------------------------------------------------------------
// Environment and arguments
// ---------------------------------------------------------------

/// What is wrong with the name of an environment variable.
pub open spec fn env_key_complaint(key: Seq<char>, service: Seq<char>) -> Complaint {
    if key.len() == 0 {
        Some(service_context(service, "environment key must not be empty"@))
    } else if byte_len(key) > 256 {
        Some(service_context(service, "environment key exceeds 256 characters"@))
    } else if !shell_safe_ident(key) {
        Some(
            service_context(
                service,
                "environment key "@ + debug_form(key) + " is not a valid identifier"@,
            ),
        )
    } else {
        None
    }
}

/// Validate a single environment variable key.
pub fn check_env_key(key: &str, svc_name: &str) -> (r: Result<(), ForgeError>)
    ensures
        verdict(r, env_key_complaint(key@, svc_name@)),
{
    if key.unicode_len() == 0 {
        return invalid(in_service(svc_name, "environment key must not be empty"));
    }
    if utf8_len(key) > 256 {
        return invalid(in_service(svc_name, "environment key exceeds 256 characters"));
    }
    if !is_shell_safe_ident(key) {
        return invalid(
            in_service(
                svc_name,
                &join3("environment key ", &quoted(key), " is not a valid identifier"),
            ),
        );
    }
    Ok(())
}

/// What is wrong with the environment entries from position `i` on.
pub open spec fn service_env_complaint(
    env: Seq<(Seq<char>, String)>,
    service: Seq<char>,
    i: int,
) -> Complaint
    decreases env.len() - i,
{
    if i < 0 || i >= env.len() {
        None
    } else {
        first_complaint(
            env_key_complaint(env[i].0, service),
            service_env_complaint(env, service, i + 1),
        )
    }
}

/// Validate all environment variable keys on a service.
pub fn check_service_env_keys(svc: &ServiceSpec) -> (r: Result<(), ForgeError>)
    ensures
        verdict(r, service_env_complaint(svc.env@, svc.name@, 0)),
{
    let mut i: usize = 0;
    while i < svc.env.len()
        invariant
            i <= svc.env@.len(),
            service_env_complaint(svc.env@, svc.name@, 0) == service_env_complaint(
                svc.env@,
                svc.name@,
                i as int,
            ),
        decreases svc.env@.len() - i,
    {
        check_env_key(svc.env.key_at(i), &svc.name)?;
        i += 1;
    }
    Ok(())
}

/// What is wrong with the arguments of a service.
pub open spec fn service_args_complaint(svc: ServiceSpec) -> Complaint {
    if svc.args.len() > 128 {
        Some(service_context(svc.name@, "more than 128 args"@))
    } else if exists|i: int|
        0 <= i < svc.args.len() && byte_len((#[trigger] svc.args[i])@) > 4096 {
        Some(service_context(svc.name@, "arg exceeds 4096 characters"@))
    } else {
        None
    }
}

/// Validate container argument count and individual length.
pub fn check_service_args_bounded(svc: &ServiceSpec) -> (r: Result<(), ForgeError>)
    ensures
        verdict(r, service_args_complaint(*svc)),
{
    if svc.args.len() > 128 {
        return invalid(in_service(&svc.name, "more than 128 args"));
    }
    let mut i: usize = 0;
    while i < svc.args.len()
        invariant
            svc.args.len() <= 128,
            i <= svc.args@.len(),
            forall|j: int| 0 <= j < i ==> byte_len((#[trigger] svc.args[j])@) <= 4096,
        decreases svc.args.len() - i,
    {
        if utf8_len(&svc.args[i]) > 4096 {
            assert(byte_len(svc.args[i as int]@) > 4096);
            return invalid(in_service(&svc.name, "arg exceeds 4096 characters"));
        }
        i += 1;
    }
    Ok(())
}

// ---------------------------------------------------------------
// Health checks
// ---------------------------------------------------------------

/// What is wrong with the fields of a health check.
pub open spec fn health_check_complaint(hc: HealthCheck, service: Seq<char>) -> Complaint {
    if hc.port == 0 {
        Some(service_context(service, "health check port must not be zero"@))
    } else if hc.retries == 0 || hc.retries > 300 {
        Some(service_context(service, "health check retries must be 1..=300"@))
    } else {
        first_complaint(
            duration_complaint(
                hc.interval@,
                service_context(service, "health check interval"@),
            ),
            duration_complaint(hc.timeout@, service_context(service, "health check timeout"@)),
        )
    }
}

/// Validate health-check fields.
pub fn check_health_check(hc: &HealthCheck, svc_name: &str) -> (r: Result<(), ForgeError>)
    ensures
        verdict(r, health_check_complaint(*hc, svc_name@)),
{
    if hc.port == 0 {
        return invalid(in_service(svc_name, "health check port must not be zero"));
    }
    if hc.retries == 0 || hc.retries > 300 {
        return invalid(in_service(svc_name, "health check retries must be 1..=300"));
    }
    check_duration_string(&hc.interval, &in_service(svc_name, "health check interval"))?;
    check_duration_string(&hc.timeout, &in_service(svc_name, "health check timeout"))
}

/// True when a mapping publishes a container port over TCP.
pub open spec fn publishes_tcp(port: PortMapping, container: u16) -> bool {
    port.container == container && port.protocol@ == "tcp"@
}

/// What is wrong with where a health check is probed.
pub open spec fn health_port_complaint(svc: ServiceSpec, hc: HealthCheck) -> Complaint {
    if svc.network == NetworkMode::Host || exists|i: int|
        0 <= i < svc.ports.len() && publishes_tcp(#[trigger] svc.ports[i], hc.port) {
        None
    } else {
        Some(
            service_context(
                svc.name@,
                "health check port "@ + decimal(hc.port as nat)
                    + " must match a published tcp container port unless network is host"@,
            ),
        )
    }
}

/// Non-host-network services must publish the container health port.
pub fn check_health_port_is_reachable(svc: &ServiceSpec, hc: &HealthCheck) -> (r: Result<
    (),
    ForgeError,
>)
    ensures
        verdict(r, health_port_complaint(*svc, *hc)),
{
    if svc.network == NetworkMode::Host {
        return Ok(());
    }
    let mut i: usize = 0;
    while i < svc.ports.len()
        invariant
            i <= svc.ports@.len(),
            svc.network != NetworkMode::Host,
            forall|j: int| 0 <= j < i ==> !publishes_tcp(#[trigger] svc.ports[j], hc.port),
        decreases svc.ports.len() - i,
    {
        if svc.ports[i].container == hc.port && same_text(&svc.ports[i].protocol, "tcp") {
            assert(publishes_tcp(svc.ports[i as int], hc.port));
            return Ok(());
        }
        i += 1;
    }
    invalid(
        in_service(
            &svc.name,
            &join3(
                "health check port ",
                &to_decimal(hc.port as u64),
                " must match a published tcp container port unless network is host",
            ),
        ),
    )
}

/// What is wrong with the health check of a service, if it has one.
pub open spec fn service_health_complaint(svc: ServiceSpec) -> Complaint {
    match svc.health_check {
        Some(hc) => first_complaint(
            health_check_complaint(hc, svc.name@),
            health_port_complaint(svc, hc),
        ),
        None => None,
    }
}

/// Validate health-check configuration if present.
pub fn check_service_health_config(svc: &ServiceSpec) -> (r: Result<(), ForgeError>)
    ensures
        verdict(r, service_health_complaint(*svc)),
{
    match &svc.health_check {
        Some(hc) => {
            check_health_check(hc, &svc.name)?;
            check_health_port_is_reachable(svc, hc)
        },
        None => Ok(()),
    }
}

// ---------------------------------------------------------------
// Services
// ---------------------------------------------------------------

/// What is wrong with the fields of a service.
pub open spec fn service_complaint(svc: ServiceSpec) -> Complaint {
    first_complaint(
        service_image_complaint(svc),
        first_complaint(
            service_ports_complaint(svc, 0),
            first_complaint(
                service_volumes_complaint(svc, 0),
                first_complaint(
                    service_env_complaint(svc.env@, svc.name@, 0),
                    first_complaint(service_args_complaint(svc), service_health_complaint(svc)),
                ),
            ),
        ),
    )
}

/// What is wrong with the fields of the services from position `i` on.
pub open spec fn services_complaint(services: Seq<ServiceSpec>, i: int) -> Complaint
    decreases services.len() - i,
{
    if i < 0 || i >= services.len() {
        None
    } else {
        first_complaint(service_complaint(services[i]), services_complaint(services, i + 1))
    }
}

/// Validate all fields on each service.
pub fn check_services(config: &ForgeConfig) -> (r: Result<(), ForgeError>)
    ensures
        verdict(r, services_complaint(config.spec.services@, 0)),
{
    let services = &config.spec.services;
    let mut i: usize = 0;
    while i < services.len()
        invariant
            services@ == config.spec.services@,
            i <= services@.len(),
            services_complaint(services@, 0) == services_complaint(services@, i as int),
        decreases services.len() - i,
    {
        let service = &services[i];
        check_service_image(service)?;
        check_service_ports(service)?;
        check_service_volumes(service)?;
        check_service_env_keys(service)?;
        check_service_args_bounded(service)?;
        check_service_health_config(service)?;
        i += 1;
    }
    Ok(())
}

} // verus!
