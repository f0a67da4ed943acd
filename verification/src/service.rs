//! The order in which services are started.

use vstd::prelude::*;
use crate::config::validate::deps::{
    build_svc_adjacency, build_svc_name_index, depends, has_dep_cycle, lemma_cycles_agree,
};
use crate::config::ServiceSpec;
use crate::error::{ErrorView, ForgeError};
use crate::graph::{compute_in_degrees, edge, kahn_order, lists, settled};

verus! {

/// True when an order lists a service.
pub open spec fn lists_service(order: Seq<usize>, s: int) -> bool {
    exists|i: int| 0 <= i < order.len() && #[trigger] order[i] == s
}

/// True when an order lists each service once and behind every service that it
/// depends on.
pub open spec fn is_start_order(services: Seq<ServiceSpec>, order: Seq<usize>) -> bool {
    &&& order.len() == services.len()
    &&& forall|i: int| 0 <= i < order.len() ==> 0 <= #[trigger] order[i] < services.len()
    &&& forall|s: int| 0 <= s < services.len() ==> #[trigger] lists_service(order, s)
    &&& forall|i: int, j: int|
        0 <= i < order.len() && 0 <= j < order.len() && #[trigger] depends(
            services,
            order[j] as int,
            order[i] as int,
        ) ==> i < j
}

/// The failure to order services that depend on each other in a circle.
pub open spec fn no_start_order() -> ErrorView {
    ErrorView::Validation("service dependency cycle detected"@)
}

/// Orders the services so that each is started behind what it depends on.
///
/// # Errors
///
/// Returns [`ForgeError::Validation`] if services depend on each other in a
/// circle.
pub fn dependency_order(services: &Vec<ServiceSpec>) -> (r: Result<Vec<usize>, ForgeError>)
    ensures
        match r {
            Ok(order) => !has_dep_cycle(services@) && is_start_order(services@, order@),
            Err(e) => has_dep_cycle(services@) && e@ == no_start_order(),
        },
{
    let index = build_svc_name_index(services);
    let adj = build_svc_adjacency(services, &index);
    let mut in_deg = compute_in_degrees(services.len(), adj.as_slice());
    let order = kahn_order(&mut in_deg, adj.as_slice());
    proof {
        lemma_cycles_agree(services@, adj@);
    }
    if order.len() != services.len() {
        return Err(ForgeError::Validation("service dependency cycle detected".to_owned()));
    }
    proof {
        let (done, rank) = choose|done: Set<int>, rank: Map<int, int>|
            #[trigger] settled(adj@, done, rank) && lists(order@, done, rank);
        crate::graph::lemma_bounded_set(adj@.len() as int, done);
        assert forall|s: int| 0 <= s < services@.len() implies #[trigger] lists_service(
            order@,
            s,
        ) by {
            assert(done.contains(s));
            assert(order@[rank[s]] == s);
        }
        assert forall|i: int| 0 <= i < order@.len() implies 0 <= #[trigger] order@[i]
            < services@.len() by {
            assert(done.contains(order@[i] as int));
        }
        assert forall|i: int, j: int|
            0 <= i < order@.len() && 0 <= j < order@.len() && #[trigger] depends(
                services@,
                order@[j] as int,
                order@[i] as int,
            ) implies i < j by {
            assert(edge(adj@, order@[i] as int, order@[j] as int));
            assert(done.contains(order@[j] as int));
            assert(done.contains(order@[i] as int));
        }
    }
    Ok(order)
}

} // verus!
