//! How the result of `up` is shown.

pub mod laws;

use vstd::prelude::*;
use crate::context::{success, success_document, OutputFormat, Shown, ShownView};
use crate::json::{item_views, Json, JsonView, ObjectBuilder};
use crate::text::{join3, join5, texts};

verus! {

// ---------------------------------------------------------------
// Results
// ---------------------------------------------------------------

/// Result of network setup.
#[derive(Clone, Debug)]
pub struct NetworkSetup {
    /// Network name.
    pub name: String,
    /// Whether this was a dry-run skip.
    pub dry_run: bool,
}

/// Result of processing one cluster.
#[derive(Clone, Debug)]
pub struct ClusterResult {
    /// Cluster config name.
    pub name: String,
    /// KIND cluster name.
    pub kind_name: String,
    /// Whether the cluster was created (vs. already existed).
    pub created: bool,
    /// Whether this was a dry-run skip.
    pub dry_run: bool,
}

/// Result of processing one service.
#[derive(Clone, Debug)]
pub struct ServiceResult {
    /// Service config name.
    pub name: String,
    /// Deterministic container name.
    pub container_name: String,
    /// Whether this was a dry-run skip.
    pub dry_run: bool,
}

/// Result of network setup, as contracts speak of it.
pub struct SetupView {
    pub name: Seq<char>,
    pub dry_run: bool,
}

/// Result of one cluster, as contracts speak of it.
pub struct ClusterResultView {
    pub name: Seq<char>,
    pub kind_name: Seq<char>,
    pub created: bool,
    pub dry_run: bool,
}

/// Result of one service, as contracts speak of it.
pub struct ServiceResultView {
    pub name: Seq<char>,
    pub container_name: Seq<char>,
    pub dry_run: bool,
}

impl NetworkSetup {
    pub open spec fn view(&self) -> SetupView {
        SetupView { name: self.name@, dry_run: self.dry_run }
    }
}

impl ClusterResult {
    pub open spec fn view(&self) -> ClusterResultView {
        ClusterResultView {
            name: self.name@,
            kind_name: self.kind_name@,
            created: self.created,
            dry_run: self.dry_run,
        }
    }
}

impl ServiceResult {
    pub open spec fn view(&self) -> ServiceResultView {
        ServiceResultView {
            name: self.name@,
            container_name: self.container_name@,
            dry_run: self.dry_run,
        }
    }
}

/// The network setup, if there was one.
pub open spec fn setup_view(net: Option<NetworkSetup>) -> Option<SetupView> {
    match net {
        Some(n) => Some(n@),
        None => None,
    }
}

/// The results of the clusters of a list.
pub open spec fn cluster_result_views(v: Seq<ClusterResult>) -> Seq<ClusterResultView> {
    Seq::new(v.len(), |i: int| v[i]@)
}

/// The results of the services of a list.
pub open spec fn service_result_views(v: Seq<ServiceResult>) -> Seq<ServiceResultView> {
    Seq::new(v.len(), |i: int| v[i]@)
}

// ---------------------------------------------------------------
// JSON
// ---------------------------------------------------------------

/// A network setup as a value.
pub open spec fn network_json(net: SetupView) -> JsonView {
    JsonView::Object(
        seq![
            ("dryRun"@, JsonView::Bool(net.dry_run)),
            ("name"@, JsonView::String(net.name)),
        ],
    )
}

/// A cluster result as a value.
pub open spec fn cluster_json(result: ClusterResultView) -> JsonView {
    JsonView::Object(
        seq![
            ("created"@, JsonView::Bool(result.created)),
            ("dryRun"@, JsonView::Bool(result.dry_run)),
            ("kindName"@, JsonView::String(result.kind_name)),
            ("name"@, JsonView::String(result.name)),
        ],
    )
}

/// A service result as a value.
pub open spec fn service_json(svc: ServiceResultView) -> JsonView {
    JsonView::Object(
        seq![
            ("containerName"@, JsonView::String(svc.container_name)),
            ("dryRun"@, JsonView::Bool(svc.dry_run)),
            ("name"@, JsonView::String(svc.name)),
        ],
    )
}

/// Convert one result to a JSON value.
pub fn result_to_json(result: &ClusterResult) -> (r: Json)
    ensures
        r@ == cluster_json(result@),
{
    let mut object = ObjectBuilder::new();
    object.put("created", Json::Bool(result.created));
    object.put("dryRun", Json::Bool(result.dry_run));
    object.put("kindName", Json::text(&result.kind_name));
    object.put("name", Json::text(&result.name));
    assert(object@ =~= cluster_json(result@)->Object_0);
    object.finish()
}

/// Convert one service result to JSON.
pub fn svc_to_json(svc: &ServiceResult) -> (r: Json)
    ensures
        r@ == service_json(svc@),
{
    let mut object = ObjectBuilder::new();
    object.put("containerName", Json::text(&svc.container_name));
    object.put("dryRun", Json::Bool(svc.dry_run));
    object.put("name", Json::text(&svc.name));
    assert(object@ =~= service_json(svc@)->Object_0);
    object.finish()
}

fn net_to_json(net: &NetworkSetup) -> (r: Json)
    ensures
        r@ == network_json(net@),
{
    let mut object = ObjectBuilder::new();
    object.put("dryRun", Json::Bool(net.dry_run));
    object.put("name", Json::text(&net.name));
    assert(object@ =~= network_json(net@)->Object_0);
    object.finish()
}

/// The cluster results as values.
pub open spec fn clusters_json(clusters: Seq<ClusterResultView>) -> Seq<JsonView> {
    Seq::new(clusters.len(), |i: int| cluster_json(clusters[i]))
}

/// The service results as values.
pub open spec fn services_json(services: Seq<ServiceResultView>) -> Seq<JsonView> {
    Seq::new(services.len(), |i: int| service_json(services[i]))
}

/// The members of the result: the clusters always, the network if it was set
/// up, and the services if there are any.
pub open spec fn up_members(
    net: Option<SetupView>,
    clusters: Seq<ClusterResultView>,
    services: Seq<ServiceResultView>,
) -> Seq<(Seq<char>, JsonView)> {
    let with_clusters = seq![("clusters"@, JsonView::Array(clusters_json(clusters)))];
    let with_network = match net {
        Some(n) => with_clusters.push(("network"@, network_json(n))),
        None => with_clusters,
    };
    if services.len() > 0 {
        with_network.push(("services"@, JsonView::Array(services_json(services))))
    } else {
        with_network
    }
}

/// The result as a document.
pub open spec fn up_document(
    net: Option<SetupView>,
    clusters: Seq<ClusterResultView>,
    services: Seq<ServiceResultView>,
) -> JsonView {
    success_document(JsonView::Object(up_members(net, clusters, services)))
}

/// Render results as JSON.
pub fn render_json(
    net: &Option<NetworkSetup>,
    clusters: &Vec<ClusterResult>,
    services: &Vec<ServiceResult>,
) -> (r: Json)
    ensures
        r@ == up_document(
            setup_view(*net),
            cluster_result_views(clusters@),
            service_result_views(services@),
        ),
{
    let ghost all = clusters_json(cluster_result_views(clusters@));
    let mut items: Vec<Json> = Vec::new();
    let mut i: usize = 0;
    assert(item_views(items@) =~= all.take(0));
    while i < clusters.len()
        invariant
            all == clusters_json(cluster_result_views(clusters@)),
            i <= clusters@.len(),
            item_views(items@) == all.take(i as int),
        decreases clusters.len() - i,
    {
        let ghost before = items@;
        items.push(result_to_json(&clusters[i]));
        i += 1;
        assert(item_views(items@) =~= item_views(before).push(all[i - 1]));
        assert(item_views(items@) =~= all.take(i as int));
    }
    assert(all.take(i as int) =~= all);
    let mut data = ObjectBuilder::new();
    data.put("clusters", Json::list(items));
    if let Some(nd) = net {
        data.put("network", net_to_json(nd));
    }
    if services.len() > 0 {
        let ghost svcs = services_json(service_result_views(services@));
        let mut svc_items: Vec<Json> = Vec::new();
        let mut j: usize = 0;
        assert(item_views(svc_items@) =~= svcs.take(0));
        while j < services.len()
            invariant
                svcs == services_json(service_result_views(services@)),
                j <= services@.len(),
                item_views(svc_items@) == svcs.take(j as int),
            decreases services.len() - j,
        {
            let ghost before = svc_items@;
            svc_items.push(svc_to_json(&services[j]));
            j += 1;
            assert(item_views(svc_items@) =~= item_views(before).push(svcs[j - 1]));
            assert(item_views(svc_items@) =~= svcs.take(j as int));
        }
        assert(svcs.take(j as int) =~= svcs);
        data.put("services", Json::list(svc_items));
    }
    assert(data@ =~= up_members(
        setup_view(*net),
        cluster_result_views(clusters@),
        service_result_views(services@),
    ));
    success(data.finish())
}

// ---------------------------------------------------------------
// Text
// ---------------------------------------------------------------

/// The line of a service result.
pub open spec fn service_line(svc: ServiceResultView) -> Seq<char> {
    (if svc.dry_run {
        "would start service '"@
    } else {
        "started service '"@
    }) + svc.name + "' (container: "@ + svc.container_name + ")"@
}

/// Format a service result as a text line.
pub fn format_svc_text(svc: &ServiceResult) -> (r: String)
    ensures
        r@ == service_line(svc@),
{
    let head = if svc.dry_run {
        "would start service '"
    } else {
        "started service '"
    };
    join5(head, &svc.name, "' (container: ", &svc.container_name, ")")
}

/// The line of a network setup.
pub open spec fn network_line(net: SetupView) -> Seq<char> {
    if net.dry_run {
        "would create network '"@ + net.name + "'"@
    } else {
        "network '"@ + net.name + "' ready"@
    }
}

/// Format a network setup result as a text line.
pub fn format_net_text(net: &NetworkSetup) -> (r: String)
    ensures
        r@ == network_line(net@),
{
    if net.dry_run {
        join3("would create network '", &net.name, "'")
    } else {
        join3("network '", &net.name, "' ready")
    }
}

/// The line of a cluster result.
pub open spec fn cluster_line(result: ClusterResultView) -> Seq<char> {
    if result.dry_run {
        "would create cluster '"@ + result.name + "' (kind name: "@ + result.kind_name + ")"@
    } else if result.created {
        "created cluster '"@ + result.name + "' (kind name: "@ + result.kind_name + ")"@
    } else {
        "cluster '"@ + result.name + "' already exists (kind name: "@ + result.kind_name + ")"@
    }
}

/// Format a single result as a text line.
pub fn format_result_text(result: &ClusterResult) -> (r: String)
    ensures
        r@ == cluster_line(result@),
{
    if result.dry_run {
        return join5(
            "would create cluster '",
            &result.name,
            "' (kind name: ",
            &result.kind_name,
            ")",
        );
    }
    if result.created {
        return join5("created cluster '", &result.name, "' (kind name: ", &result.kind_name, ")");
    }
    join5("cluster '", &result.name, "' already exists (kind name: ", &result.kind_name, ")")
}

/// The result as lines: the network, the clusters, the services.
pub open spec fn up_lines(
    net: Option<SetupView>,
    clusters: Seq<ClusterResultView>,
    services: Seq<ServiceResultView>,
) -> Seq<Seq<char>> {
    (match net {
        Some(n) => seq![network_line(n)],
        None => Seq::empty(),
    }) + Seq::new(clusters.len(), |i: int| cluster_line(clusters[i])) + Seq::new(
        services.len(),
        |i: int| service_line(services[i]),
    )
}

/// Render results as text.
pub fn render_text(
    net: &Option<NetworkSetup>,
    clusters: &Vec<ClusterResult>,
    services: &Vec<ServiceResult>,
) -> (r: Vec<String>)
    ensures
        texts(r@) == up_lines(
            setup_view(*net),
            cluster_result_views(clusters@),
            service_result_views(services@),
        ),
{
    let ghost all = up_lines(
        setup_view(*net),
        cluster_result_views(clusters@),
        service_result_views(services@),
    );
    let ghost head: int = if net is Some {
        1
    } else {
        0
    };
    let mut lines: Vec<String> = Vec::new();
    if let Some(nd) = net {
        lines.push(format_net_text(nd));
    }
    assert(texts(lines@) =~= all.take(head));
    let mut i: usize = 0;
    while i < clusters.len()
        invariant
            all == up_lines(
                setup_view(*net),
                cluster_result_views(clusters@),
                service_result_views(services@),
            ),
            head == if net is Some {
                1int
            } else {
                0int
            },
            i <= clusters@.len(),
            texts(lines@) == all.take(head + i),
        decreases clusters.len() - i,
    {
        let ghost before = lines@;
        let line = format_result_text(&clusters[i]);
        assert(line@ == all[head + i]);
        lines.push(line);
        i += 1;
        assert(texts(lines@) =~= texts(before).push(all[head + i - 1]));
        assert(texts(lines@) =~= all.take(head + i));
    }
    let mut j: usize = 0;
    while j < services.len()
        invariant
            all == up_lines(
                setup_view(*net),
                cluster_result_views(clusters@),
                service_result_views(services@),
            ),
            head == if net is Some {
                1int
            } else {
                0int
            },
            i == clusters@.len(),
            j <= services@.len(),
            texts(lines@) == all.take(head + i + j),
        decreases services.len() - j,
    {
        let ghost before = lines@;
        let line = format_svc_text(&services[j]);
        assert(line@ == all[head + i + j]);
        lines.push(line);
        j += 1;
        assert(texts(lines@) =~= texts(before).push(all[head + i + j - 1]));
        assert(texts(lines@) =~= all.take(head + i + j));
    }
    assert(all.take(head + i + j) =~= all);
    lines
}

/// The result as it is shown.
pub open spec fn up_shown(
    format: OutputFormat,
    net: Option<SetupView>,
    clusters: Seq<ClusterResultView>,
    services: Seq<ServiceResultView>,
) -> ShownView {
    match format {
        OutputFormat::Json => ShownView::Document(up_document(net, clusters, services)),
        OutputFormat::Text => ShownView::Lines(up_lines(net, clusters, services)),
    }
}

/// Render all results (network, clusters, services).
pub fn render_all(
    net: &Option<NetworkSetup>,
    clusters: &Vec<ClusterResult>,
    services: &Vec<ServiceResult>,
    format: OutputFormat,
) -> (r: Shown)
    ensures
        r@ == up_shown(
            format,
            setup_view(*net),
            cluster_result_views(clusters@),
            service_result_views(services@),
        ),
{
    match format {
        OutputFormat::Json => Shown::Document(render_json(net, clusters, services)),
        OutputFormat::Text => Shown::Lines(render_text(net, clusters, services)),
    }
}

} // verus!
