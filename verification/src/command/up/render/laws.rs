//! What the result of `up` tells.

use vstd::prelude::*;
use crate::command::up::render::{
    cluster_json, clusters_json, network_json, service_json, services_json, up_document, up_lines,
    up_members, up_shown, ClusterResultView, ServiceResultView, SetupView,
};
use crate::context::OutputFormat;
use crate::json::JsonView;

verus! {

/// The line for the network.
pub open spec fn network_text(net: SetupView) -> Seq<char> {
    if net.dry_run {
        "would create network '"@ + net.name + "'"@
    } else {
        "network '"@ + net.name + "' ready"@
    }
}

/// The line for a cluster: whether it would be created, was created or was there,
/// with its name and its KIND name.
pub open spec fn cluster_text(result: ClusterResultView) -> Seq<char> {
    let kind = result.kind_name + ")"@;
    if result.dry_run {
        "would create cluster '"@ + result.name + "' (kind name: "@ + kind
    } else if result.created {
        "created cluster '"@ + result.name + "' (kind name: "@ + kind
    } else {
        "cluster '"@ + result.name + "' already exists (kind name: "@ + kind
    }
}

/// The line for a service: whether it would be started or was, with its name and
/// that of its container.
pub open spec fn service_text(result: ServiceResultView) -> Seq<char> {
    let what = if result.dry_run {
        "would start service '"@
    } else {
        "started service '"@
    };
    what + result.name + "' (container: "@ + (result.container_name + ")"@)
}

/// As text, the result has a line for the network, where there is one, then one
/// for each cluster, and then one for each service, in their order.
pub proof fn law_every_result_has_a_line(
    net: Option<SetupView>,
    clusters: Seq<ClusterResultView>,
    services: Seq<ServiceResultView>,
)
    ensures
        ({
            let shown = up_shown(OutputFormat::Text, net, clusters, services);
            let from = if net is Some {
                1int
            } else {
                0int
            };
            &&& shown is Lines
            &&& (shown->Lines_0).len() == from + clusters.len() + services.len()
            &&& net matches Some(n) ==> (shown->Lines_0)[0] == network_text(n)
            &&& forall|i: int|
                #![trigger clusters[i]]
                0 <= i < clusters.len() ==> (shown->Lines_0)[from + i] == cluster_text(clusters[i])
            &&& forall|i: int|
                #![trigger services[i]]
                0 <= i < services.len() ==> (shown->Lines_0)[from + clusters.len() + i]
                    == service_text(services[i])
        }),
{
    let lines = up_lines(net, clusters, services);
    let from = if net is Some {
        1int
    } else {
        0int
    };
    assert forall|i: int| #![trigger clusters[i]] 0 <= i < clusters.len() implies lines[from + i]
        == cluster_text(clusters[i]) by {
        assert(lines[from + i] =~= cluster_text(clusters[i]));
    }
    assert forall|i: int| #![trigger services[i]] 0 <= i < services.len() implies lines[from
        + clusters.len() + i] == service_text(services[i]) by {
        assert(lines[from + clusters.len() + i] =~= service_text(services[i]));
    }
}

proof fn lemma_cluster_form(a: ClusterResultView, b: ClusterResultView)
    requires
        cluster_json(a) == cluster_json(b),
    ensures
        a == b,
{
    let x = cluster_json(a)->Object_0;
    let y = cluster_json(b)->Object_0;
    assert(x[0].1 == y[0].1 && x[1].1 == y[1].1 && x[2].1 == y[2].1 && x[3].1 == y[3].1);
}

proof fn lemma_service_form(a: ServiceResultView, b: ServiceResultView)
    requires
        service_json(a) == service_json(b),
    ensures
        a == b,
{
    let x = service_json(a)->Object_0;
    let y = service_json(b)->Object_0;
    assert(x[0].1 == y[0].1 && x[1].1 == y[1].1 && x[2].1 == y[2].1);
}

proof fn lemma_network_form(a: SetupView, b: SetupView)
    requires
        network_json(a) == network_json(b),
    ensures
        a == b,
{
    let x = network_json(a)->Object_0;
    let y = network_json(b)->Object_0;
    assert(x[0].1 == y[0].1 && x[1].1 == y[1].1);
}

proof fn lemma_member_names()
    ensures
        "clusters"@ != "network"@,
        "clusters"@ != "services"@,
        "network"@ != "services"@,
{
    reveal_strlit("clusters");
    reveal_strlit("network");
    reveal_strlit("services");
    assert("clusters"@.len() == 8 && "network"@.len() == 7 && "services"@.len() == 8);
    assert("clusters"@[0] == 'c' && "services"@[0] == 's');
}

/// As a document, the result tells everything of the network, of each cluster and
/// of each service, and that the command succeeded: two results that differ have
/// different documents.
pub proof fn law_the_document_tells_every_result(
    net: Option<SetupView>,
    clusters: Seq<ClusterResultView>,
    services: Seq<ServiceResultView>,
    net2: Option<SetupView>,
    clusters2: Seq<ClusterResultView>,
    services2: Seq<ServiceResultView>,
)
    ensures
        up_shown(OutputFormat::Json, net, clusters, services) == up_shown(
            OutputFormat::Json,
            net2,
            clusters2,
            services2,
        ) ==> net == net2 && clusters == clusters2 && services == services2,
        ({
            let shown = up_shown(OutputFormat::Json, net, clusters, services);
            &&& shown is Document
            &&& (shown->Document_0) is Object
            &&& (shown->Document_0)->Object_0.contains(("ok"@, JsonView::Bool(true)))
        }),
{
    let a = up_members(net, clusters, services);
    let b = up_members(net2, clusters2, services2);
    let x = up_document(net, clusters, services)->Object_0;
    let y = up_document(net2, clusters2, services2)->Object_0;
    assert(x[1] == ("ok"@, JsonView::Bool(true)));
    if x == y {
        assert(x[0].1 == y[0].1);
        assert(a == b);
        lemma_member_names();
        assert(a[0].1 == b[0].1);
        assert(clusters_json(clusters) == clusters_json(clusters2));
        assert(clusters_json(clusters).len() == clusters.len());
        assert(clusters_json(clusters2).len() == clusters2.len());
        assert forall|i: int| 0 <= i < clusters.len() implies clusters[i] == clusters2[i] by {
            assert(clusters_json(clusters)[i] == clusters_json(clusters2)[i]);
            lemma_cluster_form(clusters[i], clusters2[i]);
        }
        assert(clusters =~= clusters2);
        if a.len() > 1 {
            assert(a[1] == b[1]);
        }
        if a.len() > 2 {
            assert(a[2] == b[2]);
        }
        if let (Some(n), Some(m)) = (net, net2) {
            lemma_network_form(n, m);
        }
        assert(services_json(services).len() == services.len());
        assert(services_json(services2).len() == services2.len());
        if services.len() > 0 {
            assert(services2.len() > 0);
            assert(services_json(services) == services_json(services2));
        }
        assert(services.len() == services2.len());
        assert forall|i: int| 0 <= i < services.len() implies services[i] == services2[i] by {
            assert(services_json(services)[i] == services_json(services2)[i]);
            lemma_service_form(services[i], services2[i]);
        }
        assert(services =~= services2);
    }
}

/// Each part of a result stands under its own name in the document.
pub proof fn law_results_stand_under_their_names(
    net: SetupView,
    cluster: ClusterResultView,
    service: ServiceResultView,
)
    ensures
        network_json(net)->Object_0 == seq![
            ("dryRun"@, JsonView::Bool(net.dry_run)),
            ("name"@, JsonView::String(net.name)),
        ],
        cluster_json(cluster)->Object_0 == seq![
            ("created"@, JsonView::Bool(cluster.created)),
            ("dryRun"@, JsonView::Bool(cluster.dry_run)),
            ("kindName"@, JsonView::String(cluster.kind_name)),
            ("name"@, JsonView::String(cluster.name)),
        ],
        service_json(service)->Object_0 == seq![
            ("containerName"@, JsonView::String(service.container_name)),
            ("dryRun"@, JsonView::Bool(service.dry_run)),
            ("name"@, JsonView::String(service.name)),
        ],
{
}

/// The document lists the clusters, then the network, where there is one, and then
/// the services, if there are any.
pub proof fn law_results_are_grouped(
    net: Option<SetupView>,
    clusters: Seq<ClusterResultView>,
    services: Seq<ServiceResultView>,
)
    ensures
        ({
            let document = up_document(net, clusters, services)->Object_0;
            let members = document[0].1->Object_0;
            let last = members.len() - 1;
            &&& document.len() == 2
            &&& document[0].0 == "data"@
            &&& members[0].0 == "clusters"@
            &&& (members[0].1->Array_0).len() == clusters.len()
            &&& forall|i: int|
                #![trigger clusters[i]]
                0 <= i < clusters.len() ==> members[0].1->Array_0[i] == cluster_json(clusters[i])
            &&& net matches Some(n) ==> members[1] == ("network"@, network_json(n))
            &&& services.len() > 0 ==> {
                &&& members[last].0 == "services"@
                &&& (members[last].1->Array_0).len() == services.len()
                &&& forall|i: int|
                    #![trigger services[i]]
                    0 <= i < services.len() ==> members[last].1->Array_0[i] == service_json(
                        services[i],
                    )
            }
            &&& members.len() == 1 + (if net is Some {
                1int
            } else {
                0int
            }) + (if services.len() > 0 {
                1int
            } else {
                0int
            })
        }),
{
}

} // verus!
