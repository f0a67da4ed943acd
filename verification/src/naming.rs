//! Names of the runtime resources that belong to an environment.

use vstd::prelude::*;
use crate::text::{join2, join3};

verus! {

/// Name of the container network of an environment.
pub open spec fn network_name_of(env: Seq<char>) -> Seq<char> {
    env + "-net"@
}

/// Name of the container network of an environment.
pub fn network_name(env_name: &str) -> (r: String)
    ensures
        r@ == network_name_of(env_name@),
{
    join2(env_name, "-net")
}

/// Name under which KIND knows a cluster.
pub open spec fn kind_name_of(prefix: Seq<char>, cluster: Seq<char>) -> Seq<char> {
    prefix + "-"@ + cluster
}

/// Name under which KIND knows a cluster.
pub fn kind_cluster_name(prefix: &str, cluster: &str) -> (r: String)
    ensures
        r@ == kind_name_of(prefix@, cluster@),
{
    join3(prefix, "-", cluster)
}

/// Name of the kubectl context of a KIND cluster.
pub open spec fn context_of(kind_name: Seq<char>) -> Seq<char> {
    "kind-"@ + kind_name
}

/// Name of the kubectl context of a KIND cluster.
pub fn kubectl_context(kind_name: &str) -> (r: String)
    ensures
        r@ == context_of(kind_name@),
{
    join2("kind-", kind_name)
}

/// Name of the container of a service.
pub open spec fn container_name_of(env: Seq<char>, service: Seq<char>) -> Seq<char> {
    env + "-"@ + service
}

/// Name of the container of a service.
pub fn container_name(env_name: &str, service: &str) -> (r: String)
    ensures
        r@ == container_name_of(env_name@, service@),
{
    join3(env_name, "-", service)
}

} // verus!
