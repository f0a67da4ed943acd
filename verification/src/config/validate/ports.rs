//! Conflicts between host port bindings.
//!
//! A binding is a host port, a protocol and a bind address. Clusters and
//! services publish on the same host, so all their bindings are held against
//! each other.

use vstd::prelude::*;
use crate::config::{ClusterSpec, ForgeConfig, PortMapping, ServiceSpec};
use crate::error::{invalid, verdict, Complaint, ForgeError};
use crate::ip::{ip_value, parse_ip, IpAddr};
use crate::numeral::{decimal, to_decimal};
use crate::text::{
    borrow_text, debug_form, join2, join3, join5, lowercase_form, lowercased, opt_str, opt_text,
    quoted, same_text,
};

verus! {

// ---------------------------------------------------------------
// Bind addresses
// ---------------------------------------------------------------

/// A parsed bind address, classified for conflict detection.
#[derive(Clone, Copy, Debug, PartialEq, Eq, Structural)]
pub enum BindAddr {
    /// Publishes on all interfaces (unset, `0.0.0.0`, or `::`).
    Wildcard,
    /// Publishes on one specific address.
    Specific(IpAddr),
}

/// The class of an optional bind address. What is no address is a wildcard.
pub open spec fn bind_of(addr: Option<Seq<char>>) -> BindAddr {
    match addr {
        Some(text) => match ip_value(text) {
            Some(ip) => if ip.unspecified() {
                BindAddr::Wildcard
            } else {
                BindAddr::Specific(ip)
            },
            None => BindAddr::Wildcard,
        },
        None => BindAddr::Wildcard,
    }
}

/// Classify an optional bind address for conflict detection.
///
/// Unparseable addresses are treated as wildcard; per-port validation
/// has already rejected them with a dedicated error by this point.
pub fn parse_bind_addr(addr: Option<&str>) -> (r: BindAddr)
    ensures
        r == bind_of(opt_str(addr)),
{
    match addr {
        Some(text) => match parse_ip(text) {
            Some(ip) => if ip.is_unspecified() {
                BindAddr::Wildcard
            } else {
                BindAddr::Specific(ip)
            },
            None => BindAddr::Wildcard,
        },
        None => BindAddr::Wildcard,
    }
}

/// True when two bind addresses of one port and protocol overlap.
pub open spec fn overlap(a: BindAddr, b: BindAddr) -> bool {
    a == BindAddr::Wildcard || b == BindAddr::Wildcard || a == b
}

// ---------------------------------------------------------------
// Claims
// ---------------------------------------------------------------

/// What claimed a host binding, so a conflict can name both sides.
#[derive(Clone, Copy, Debug)]
pub enum PortOwner<'cfg> {
    /// A cluster port mapping.
    Cluster(&'cfg str),
    /// A service port mapping.
    Service(&'cfg str),
}

/// A claimant as contracts speak of it.
pub enum OwnerView {
    /// A cluster, by name.
    Cluster(Seq<char>),
    /// A service, by name.
    Service(Seq<char>),
}

/// How a complaint names a claimant.
pub open spec fn owner_text(owner: OwnerView) -> Seq<char> {
    match owner {
        OwnerView::Cluster(name) => "cluster "@ + debug_form(name),
        OwnerView::Service(name) => "service "@ + debug_form(name),
    }
}

impl<'cfg> PortOwner<'cfg> {
    /// The claimant's kind and name.
    pub open spec fn view(&self) -> OwnerView {
        match self {
            PortOwner::Cluster(name) => OwnerView::Cluster(name@),
            PortOwner::Service(name) => OwnerView::Service(name@),
        }
    }

    /// Renders the claimant for a complaint.
    pub fn describe(&self) -> (r: String)
        ensures
            r@ == owner_text(self@),
    {
        match self {
            PortOwner::Cluster(name) => join2("cluster ", &quoted(name)),
            PortOwner::Service(name) => join2("service ", &quoted(name)),
        }
    }

    /// True when both are the same claimant.
    pub fn same(&self, other: &PortOwner<'cfg>) -> (r: bool)
        ensures
            r == (self@ == other@),
    {
        match (self, other) {
            (PortOwner::Cluster(a), PortOwner::Cluster(b)) => same_text(a, b),
            (PortOwner::Service(a), PortOwner::Service(b)) => same_text(a, b),
            _ => false,
        }
    }
}

/// A port mapping and what claims it.
pub struct Claim {
    /// The mapping.
    pub port: PortMapping,
    /// The claimant.
    pub owner: OwnerView,
}

/// The claims of one owner.
pub open spec fn claims_on(ports: Seq<PortMapping>, owner: OwnerView) -> Seq<Claim> {
    Seq::new(ports.len(), |i: int| Claim { port: ports[i], owner })
}

/// The claims of the clusters, in order.
pub open spec fn cluster_claims(clusters: Seq<ClusterSpec>) -> Seq<Claim>
    decreases clusters.len(),
{
    if clusters.len() == 0 {
        Seq::empty()
    } else {
        cluster_claims(clusters.drop_last()) + claims_on(
            clusters.last().ports@,
            OwnerView::Cluster(clusters.last().name@),
        )
    }
}

/// The claims of the services, in order.
pub open spec fn service_claims(services: Seq<ServiceSpec>) -> Seq<Claim>
    decreases services.len(),
{
    if services.len() == 0 {
        Seq::empty()
    } else {
        service_claims(services.drop_last()) + claims_on(
            services.last().ports@,
            OwnerView::Service(services.last().name@),
        )
    }
}

/// Every claim of an environment: those of the clusters, then those of the
/// services.
pub open spec fn all_claims(config: ForgeConfig) -> Seq<Claim> {
    cluster_claims(config.spec.clusters@) + service_claims(config.spec.services@)
}

/// True when two mappings cannot both be published: same host port, same
/// protocol whatever its case, and overlapping bind addresses.
pub open spec fn ports_conflict(a: PortMapping, b: PortMapping) -> bool {
    &&& a.host == b.host
    &&& lowercase_form(a.protocol@) == lowercase_form(b.protocol@)
    &&& overlap(bind_of(opt_text(a.bind_address)), bind_of(opt_text(b.bind_address)))
}

/// The first claim from position `j` on, and before `i`, that conflicts with
/// claim `i`.
pub open spec fn first_rival(claims: Seq<Claim>, i: int, j: int) -> Option<int>
    decreases i - j,
{
    if j >= i {
        None
    } else if ports_conflict(claims[j].port, claims[i].port) {
        Some(j)
    } else {
        first_rival(claims, i, j + 1)
    }
}

/// How a conflict is reported.
pub open spec fn conflict_text(owner: OwnerView, other: OwnerView, port: PortMapping) -> Seq<
    char,
> {
    let addr = match port.bind_address {
        Some(text) => text@,
        None => "0.0.0.0"@,
    };
    let binding = addr + ":"@ + decimal(port.host as nat) + "/"@ + lowercase_form(port.protocol@);
    if owner == other {
        owner_text(owner) + ": duplicate host port binding "@ + binding
    } else {
        owner_text(owner) + ": host port binding "@ + binding + " is already mapped by "@
            + owner_text(other)
    }
}

/// What is wrong with the claims from position `i` on, held against all
/// claims before them.
pub open spec fn claims_complaint(claims: Seq<Claim>, i: int) -> Complaint
    decreases claims.len() - i,
{
    if i < 0 || i >= claims.len() {
        None
    } else {
        match first_rival(claims, i, 0) {
            Some(j) => Some(conflict_text(claims[i].owner, claims[j].owner, claims[i].port)),
            None => claims_complaint(claims, i + 1),
        }
    }
}

// ---------------------------------------------------------------
// Laws
// ---------------------------------------------------------------

proof fn lemma_first_rival(claims: Seq<Claim>, i: int, j: int)
    ensures
        first_rival(claims, i, j) is None ==> forall|k: int|
            j <= k < i ==> !ports_conflict((#[trigger] claims[k]).port, claims[i].port),
        first_rival(claims, i, j) matches Some(k) ==> j <= k < i && ports_conflict(
            claims[k].port,
            claims[i].port,
        ) && forall|m: int| j <= m < k ==> !ports_conflict((#[trigger] claims[m]).port, claims[i].port),
    decreases i - j,
{
    if j < i {
        lemma_first_rival(claims, i, j + 1);
    }
}

/// The claims are accepted exactly when no two of them conflict.
pub proof fn lemma_accepted_claims_are_disjoint(claims: Seq<Claim>, from: int)
    requires
        0 <= from <= claims.len(),
    ensures
        claims_complaint(claims, from) is None <==> forall|j: int, i: int|
            0 <= j < i && from <= i < claims.len() ==> !ports_conflict(
                (#[trigger] claims[j]).port,
                (#[trigger] claims[i]).port,
            ),
    decreases claims.len() - from,
{
    if from < claims.len() {
        lemma_first_rival(claims, from, 0);
        lemma_accepted_claims_are_disjoint(claims, from + 1);
    }
}

/// Which of two claims comes first does not matter for whether they conflict.
pub proof fn law_conflicts_are_mutual(a: PortMapping, b: PortMapping)
    ensures
        ports_conflict(a, b) == ports_conflict(b, a),
{
}

// ---------------------------------------------------------------
// Checks
// ---------------------------------------------------------------

/// A claimed binding, in the form in which bindings are held against each
/// other.
#[derive(Debug)]
pub struct Binding<'cfg> {
    /// Host port.
    pub host: u16,
    /// Protocol in lower case.
    pub protocol: String,
    /// Classified bind address.
    pub addr: BindAddr,
    /// The claimant.
    pub owner: PortOwner<'cfg>,
}

/// True when two bindings cannot both be published.
pub open spec fn bindings_conflict(a: Binding, b: Binding) -> bool {
    a.host == b.host && a.protocol@ == b.protocol@ && overlap(a.addr, b.addr)
}

/// True when a registered binding is that of a claim.
pub open spec fn registers(binding: Binding, claim: Claim) -> bool {
    &&& binding.host == claim.port.host
    &&& binding.protocol@ == lowercase_form(claim.port.protocol@)
    &&& binding.addr == bind_of(opt_text(claim.port.bind_address))
    &&& binding.owner@ == claim.owner
}

/// The first already-seen binding a candidate overlaps, if any.
pub fn conflicting_owner<'cfg>(seen: &Vec<Binding<'cfg>>, candidate: &Binding<'cfg>) -> (r: Option<
    PortOwner<'cfg>,
>)
    ensures
        match r {
            Some(owner) => exists|j: int|
                0 <= j < seen@.len() && bindings_conflict(#[trigger] seen@[j], *candidate) && owner
                    == seen@[j].owner && forall|k: int|
                    0 <= k < j ==> !bindings_conflict(#[trigger] seen@[k], *candidate),
            None => forall|k: int|
                0 <= k < seen@.len() ==> !bindings_conflict(#[trigger] seen@[k], *candidate),
        },
{
    let mut j: usize = 0;
    while j < seen.len()
        invariant
            j <= seen@.len(),
            forall|k: int| 0 <= k < j ==> !bindings_conflict(#[trigger] seen@[k], *candidate),
        decreases seen.len() - j,
    {
        let old = &seen[j];
        if old.host == candidate.host && same_text(&old.protocol, &candidate.protocol) && (old.addr
            == BindAddr::Wildcard || candidate.addr == BindAddr::Wildcard || old.addr
            == candidate.addr) {
            assert(bindings_conflict(seen@[j as int], *candidate));
            return Some(old.owner);
        }
        j += 1;
    }
    None
}

/// Render a conflict, naming the binding and both claimants.
pub fn describe_port_conflict(owner: PortOwner<'_>, other: PortOwner<'_>, port: &PortMapping) -> (r:
    String)
    ensures
        r@ == conflict_text(owner@, other@, *port),
{
    let addr = match &port.bind_address {
        Some(text) => text.as_str(),
        None => "0.0.0.0",
    };
    let binding = join5(
        addr,
        ":",
        &to_decimal(port.host as u64),
        "/",
        &lowercased(&port.protocol),
    );
    if owner.same(&other) {
        join3(&owner.describe(), ": duplicate host port binding ", &binding)
    } else {
        join5(
            &owner.describe(),
            ": host port binding ",
            &binding,
            " is already mapped by ",
            &other.describe(),
        )
    }
}

/// The claims in a collected list.
pub open spec fn claim_views(v: Seq<(&PortMapping, PortOwner)>) -> Seq<Claim> {
    Seq::new(v.len(), |i: int| Claim { port: *v[i].0, owner: v[i].1@ })
}

fn collect_claims<'cfg>(config: &'cfg ForgeConfig) -> (r: Vec<(&'cfg PortMapping, PortOwner<'cfg>)>)
    ensures
        claim_views(r@) == all_claims(*config),
{
    let clusters = &config.spec.clusters;
    let services = &config.spec.services;
    let mut r: Vec<(&'cfg PortMapping, PortOwner<'cfg>)> = Vec::new();
    let mut i: usize = 0;
    assert(clusters@.take(0) =~= Seq::empty());
    assert(claim_views(r@) =~= cluster_claims(clusters@.take(0)));
    while i < clusters.len()
        invariant
            clusters@ == config.spec.clusters@,
            i <= clusters@.len(),
            claim_views(r@) == cluster_claims(clusters@.take(i as int)),
        decreases clusters.len() - i,
    {
        let cluster = &clusters[i];
        let ghost before = cluster_claims(clusters@.take(i as int));
        let ghost owner = OwnerView::Cluster(cluster.name@);
        let mut j: usize = 0;
        assert(claim_views(r@) =~= before + claims_on(cluster.ports@.take(0), owner));
        while j < cluster.ports.len()
            invariant
                owner == OwnerView::Cluster(cluster.name@),
                j <= cluster.ports@.len(),
                claim_views(r@) == before + claims_on(cluster.ports@.take(j as int), owner),
            decreases cluster.ports.len() - j,
        {
            let ghost old_r = r@;
            r.push((&cluster.ports[j], PortOwner::Cluster(cluster.name.as_str())));
            proof {
                let claim = Claim { port: cluster.ports@[j as int], owner };
                assert(claim_views(r@) =~= claim_views(old_r).push(claim));
                assert(before + claims_on(cluster.ports@.take(j + 1), owner) =~= (before + claims_on(
                    cluster.ports@.take(j as int),
                    owner,
                )).push(claim));
            }
            j += 1;
        }
        proof {
            assert(cluster.ports@.take(j as int) =~= cluster.ports@);
            assert(clusters@.take(i + 1).drop_last() =~= clusters@.take(i as int));
            assert(clusters@.take(i + 1).last() == *cluster);
        }
        i += 1;
    }
    assert(clusters@.take(i as int) =~= clusters@);
    let ghost of_clusters = cluster_claims(clusters@);
    let mut s: usize = 0;
    assert(services@.take(0) =~= Seq::empty());
    assert(claim_views(r@) =~= of_clusters + service_claims(services@.take(0)));
    while s < services.len()
        invariant
            services@ == config.spec.services@,
            s <= services@.len(),
            claim_views(r@) == of_clusters + service_claims(services@.take(s as int)),
        decreases services.len() - s,
    {
        let service = &services[s];
        let ghost before = of_clusters + service_claims(services@.take(s as int));
        let ghost owner = OwnerView::Service(service.name@);
        let mut j: usize = 0;
        assert(claim_views(r@) =~= before + claims_on(service.ports@.take(0), owner));
        while j < service.ports.len()
            invariant
                owner == OwnerView::Service(service.name@),
                j <= service.ports@.len(),
                claim_views(r@) == before + claims_on(service.ports@.take(j as int), owner),
            decreases service.ports.len() - j,
        {
            let ghost old_r = r@;
            r.push((&service.ports[j], PortOwner::Service(service.name.as_str())));
            proof {
                let claim = Claim { port: service.ports@[j as int], owner };
                assert(claim_views(r@) =~= claim_views(old_r).push(claim));
                assert(before + claims_on(service.ports@.take(j + 1), owner) =~= (before + claims_on(
                    service.ports@.take(j as int),
                    owner,
                )).push(claim));
            }
            j += 1;
        }
        proof {
            assert(service.ports@.take(j as int) =~= service.ports@);
            assert(services@.take(s + 1).drop_last() =~= services@.take(s as int));
            assert(services@.take(s + 1).last() == *service);
            assert(before + claims_on(service.ports@, owner) =~= of_clusters + service_claims(
                services@.take(s + 1),
            ));
        }
        s += 1;
    }
    assert(services@.take(s as int) =~= services@);
    r
}

/// Reject overlapping host-port bindings anywhere in the environment.
///
/// Cluster `extraPortMappings` and service ports are published on the same
/// host by the same container runtime, so they compete for one set of
/// bindings and are checked against one registry. Two registries would let a
/// cluster and a service both claim `8080/tcp`, pass validation, and fail
/// later during `forge up` with an opaque "port is already allocated".
///
/// A binding is `(host port, protocol, bind address)`:
///
/// - Protocol is compared case-insensitively, and TCP and UDP on the same
///   port are distinct bindings that both Docker and KIND accept.
/// - A wildcard bind (unset, `0.0.0.0`, or `::`) publishes on every
///   interface, so it conflicts with any other binding of that port and
///   protocol; two specific addresses conflict only when they are equal.
pub fn check_host_port_conflicts(config: &ForgeConfig) -> (r: Result<(), ForgeError>)
    ensures
        verdict(r, claims_complaint(all_claims(*config), 0)),
{
    let claims = collect_claims(config);
    let ghost all = all_claims(*config);
    let mut seen: Vec<Binding<'_>> = Vec::new();
    let mut i: usize = 0;
    while i < claims.len()
        invariant
            all == all_claims(*config),
            claim_views(claims@) == all,
            i <= claims@.len(),
            seen@.len() == i,
            forall|k: int| 0 <= k < i ==> registers(#[trigger] seen@[k], all[k]),
            claims_complaint(all, 0) == claims_complaint(all, i as int),
        decreases claims.len() - i,
    {
        let (port, owner) = claims[i];
        assert(all[i as int] == Claim { port: *port, owner: owner@ });
        let candidate = Binding {
            host: port.host,
            protocol: lowercased(&port.protocol),
            addr: parse_bind_addr(borrow_text(&port.bind_address)),
            owner,
        };
        let found = conflicting_owner(&seen, &candidate);
        proof {
            assert(registers(candidate, all[i as int]));
            assert forall|k: int| 0 <= k < i implies bindings_conflict(#[trigger] seen@[k], candidate)
                == ports_conflict(all[k].port, all[i as int].port) by {
                assert(registers(seen@[k], all[k]));
            }
            lemma_first_rival(all, i as int, 0);
            if let Some(k) = first_rival(all, i as int, 0) {
                assert(bindings_conflict(seen@[k], candidate));
                assert(registers(seen@[k], all[k]));
            }
        }
        if let Some(other) = found {
            return invalid(describe_port_conflict(owner, other, port));
        }
        seen.push(candidate);
        i += 1;
    }
    Ok(())
}

} // verus!
