//! What stands for plain data in statements: each part for the part itself.

use vstd::prelude::*;

use crate::config;
use crate::control;
use crate::control::Plan;
use crate::dict;
use crate::graph;
use crate::graph::GraphSeries;
use crate::health;
use crate::health::HealthItem;
use crate::json;
use crate::json::{Double, Json, JsonView};
use crate::mesh;
use crate::mesh::{MeshEdge, MeshNode, MeshView};
use crate::mesh_job;
use crate::mesh_job::Reading;
use crate::push::{PushEvent, PushStore, StateEvent};
use crate::shape;
use crate::shape::{Shape, ShapeModel};
use crate::status;
use crate::status::{LightStateView, StateView};
use crate::text;
use crate::validate;
use crate::validate::{ConfigError, Fault};

verus! {

/// A document is what its parts are.
pub proof fn lemma_documents(j: Json, values: Vec<Json>, members: Vec<(String, Json)>, i: int)
    ensures
        Json::Null@ == JsonView::Null,
        forall|b: bool| #[trigger] Json::Bool(b)@ == JsonView::Bool(b),
        forall|n: json::Numeral| #[trigger] Json::Number(n)@ == JsonView::Number(n),
        forall|s: String| #[trigger] Json::Text(s)@ == JsonView::Text(s@),
        Json::Array(values)@ matches JsonView::Array(a) && a.len() == values@.len() && (0 <= i
            < values@.len() ==> a[i] == values@[i]@),
        Json::Object(members)@ matches JsonView::Object(m) && m.len() == members@.len() && (0 <= i
            < members@.len() ==> m[i].0 == members@[i].0@ && m[i].1 == members@[i].1@),
        json::stated(Some(j)) == Some(j@) && json::stated(None) is None,
        json::said(Some(&j)) == Some(j@) && json::said(None) is None,
        json::views(values@).len() == values@.len(),
        0 <= i < values@.len() ==> json::views(values@)[i] == values@[i]@,
{
    broadcast use crate::json::lemma_json_view;

    reveal_with_fuel(json::saying, 2);
    let array = Json::Array(values);
    let object = Json::Object(members);
    json::lemma_json_view(array);
    json::lemma_json_view(object);
}

/// Lists are told element by element, in their order.
pub proof fn lemma_lists(
    nodes: Seq<MeshNode>,
    edges: Seq<MeshEdge>,
    series: Seq<GraphSeries>,
    points: Seq<(String, Double)>,
    items: Seq<HealthItem>,
    events: Seq<StateEvent>,
    shapes: Seq<Shape>,
    texts: Seq<String>,
    i: int,
)
    ensures
        mesh::node_models(nodes).len() == nodes.len(),
        0 <= i < nodes.len() ==> mesh::node_models(nodes)[i] == nodes[i]@,
        mesh::edge_models(edges).len() == edges.len(),
        0 <= i < edges.len() ==> mesh::edge_models(edges)[i] == edges[i]@,
        graph::series_models(series).len() == series.len(),
        0 <= i < series.len() ==> graph::series_models(series)[i] == series[i]@,
        graph::points(points).len() == points.len(),
        0 <= i < points.len() ==> graph::points(points)[i] == (points[i].0@, points[i].1),
        health::item_models(items).len() == items.len(),
        0 <= i < items.len() ==> health::item_models(items)[i] == items[i]@,
        crate::push::event_models(events).len() == events.len(),
        0 <= i < events.len() ==> crate::push::event_models(events)[i] == events[i]@,
        shape::models(shapes).len() == shapes.len(),
        0 <= i < shapes.len() ==> shape::models(shapes)[i] == shapes[i]@,
        text::texts(texts).len() == texts.len(),
        0 <= i < texts.len() ==> text::texts(texts)[i] == texts[i]@,
{
}

/// What may be missing is told exactly where it is there.
pub proof fn lemma_what_may_be_missing(
    event: PushEvent,
    store: &PushStore,
    view: MeshView,
    kind: &'static str,
    s: Shape,
    line: &[String],
    value: &u64,
)
    ensures
        crate::push::reported(Some(event)) == Some(event@),
        crate::push::reported(None) is None,
        status::store_model(Some(store)) == Some(store@),
        status::store_model(None) is None,
        mesh_job::read_as(Ok(view)) == Reading::Mesh(view@),
        mesh_job::read_as(Err(kind)) == Reading::Failure(kind@),
        shape::given(Some(s)) == Some(s@),
        shape::given(None) is None,
        shape::or_null(None) == ShapeModel::Null,
        config::lent_line(Some(line)) == Some(line@),
        config::lent_line(None) is None,
        dict::lent(Some(value)) == Some(*value),
        dict::lent::<u64>(None) is None,
{
}

/// The parts of a participant, of a link and of a mesh.
pub proof fn lemma_mesh_parts(n: MeshNode, e: MeshEdge, v: MeshView)
    ensures
        n@.id == n.id@ && n@.name == n.name@ && n@.kind == n.kind@ && n@.role == n.role@,
        n@.is_leader == n.is_leader && n@.probed == n.probed && n@.error_kind == text::held(
            n.error_kind,
        ),
        e@.a == e.a@ && e@.b == e.b@ && e@.grade == e.grade@,
        e@.lqi == e.lqi && e@.rssi == e.rssi && e@.fer == e.fer,
        v@.nodes == mesh::node_models(v.nodes@) && v@.edges == mesh::edge_models(v.edges@),
        v@.unidentified_count == v.unidentified_count && v@.fetched_at == text::held(v.fetched_at),
        v@.network.name == text::held(v.network.name) && v@.network.channel == v.network.channel,
        v@.network.leader_router_id == v.network.leader_router_id && v@.network.split
            == v.network.split,
{
}

/// The parts of a state, of the state of a pushed light, and of a change.
pub proof fn lemma_state_parts(v: StateView, l: LightStateView, e: StateEvent, p: PushEvent)
    ensures
        v@.state == v.state && v@.outcome == v.outcome && v@.raw == json::stated(v.raw),
        l@.state == l.state && l@.outcome == l.outcome && l@.raw == json::stated(l.raw),
        l@.source == l.source@ && l@.stale == l.stale,
        e@.device == e.device@ && e@.state == e.state && e@.source == e.source@ && e@.stale
            == e.stale,
        p@.node_id == p.node_id && p@.cluster == p.cluster@ && p@.attribute == p.attribute@,
        p@.value == p.value@,
{
}

/// The parts of a series and of a metric.
pub proof fn lemma_row_parts(s: GraphSeries, i: HealthItem)
    ensures
        s@.label == s.label@ && s@.points == graph::points(s.points@),
        i@.label == i.label@ && i@.value == i.value && i@.ts == text::held(i.ts) && i@.level
            == i.level@,
{
}

/// The command of a plan is the one that it runs; a refusal runs none.
pub proof fn lemma_command_of_a_plan(plan: Plan<'_>)
    ensures
        plan is Refuse <==> control::command(plan) is None,
        plan matches Plan::Send { cmd, .. } ==> control::command(plan) == Some(cmd@),
        plan matches Plan::Confirm { cmd, .. } ==> control::command(plan) == Some(cmd@),
{
}

/// A check reports a fault exactly where it fails, and that of its error.
pub proof fn lemma_errors(e: ConfigError, a: String, b: String, field: &'static str, count: usize)
    ensures
        validate::reported(Ok(())) is None,
        validate::reported(Err(e)) == Some(e@),
        ConfigError::Read(a)@ == Fault::Read(a@),
        ConfigError::Parse(a)@ == Fault::Parse(a@),
        ConfigError::Empty@ == Fault::Empty,
        ConfigError::DuplicateName(a)@ == Fault::DuplicateName(a@),
        ConfigError::EmptyCommand(a)@ == Fault::EmptyCommand(a@),
        ConfigError::EmptyGroup(a)@ == Fault::EmptyGroup(a@),
        (ConfigError::UnknownMember { group: a, member: b })@ == (Fault::UnknownMember {
            group: a@,
            member: b@,
        }),
        ConfigError::DuplicateGroup(a)@ == Fault::DuplicateGroup(a@),
        (ConfigError::MissingCommand { device: a, field })@ == (Fault::MissingCommand {
            device: a@,
            field: field@,
        }),
        (ConfigError::ForbiddenField { device: a, field })@ == (Fault::ForbiddenField {
            device: a@,
            field: field@,
        }),
        (ConfigError::DuplicatePreset { device: a, preset: b })@ == (Fault::DuplicatePreset {
            device: a@,
            preset: b@,
        }),
        (ConfigError::NonShutterInGroup { group: a, member: b })@ == (Fault::NonShutterInGroup {
            group: a@,
            member: b@,
        }),
        (ConfigError::DuplicateGroupMember { device: a })@ == (Fault::DuplicateGroupMember {
            device: a@,
        }),
        (ConfigError::ColorPlaceholder { device: a, count })@ == (Fault::ColorPlaceholder {
            device: a@,
            count,
        }),
        (ConfigError::BrightnessPlaceholder { device: a, count })@ == (
        Fault::BrightnessPlaceholder { device: a@, count }),
        ConfigError::DuplicateGraph(a)@ == Fault::DuplicateGraph(a@),
        ConfigError::EmptyGraphQuery(a)@ == Fault::EmptyGraphQuery(a@),
        (ConfigError::PeriodPlaceholder { graph: a, count })@ == (Fault::PeriodPlaceholder {
            graph: a@,
            count,
        }),
        (ConfigError::UnknownLightMember { device: a, member: b })@ == (
        Fault::UnknownLightMember { device: a@, member: b@ }),
        (ConfigError::NonLightMember { device: a, member: b })@ == (Fault::NonLightMember {
            device: a@,
            member: b@,
        }),
        (ConfigError::NestedLightMembers { device: a, member: b })@ == (
        Fault::NestedLightMembers { device: a@, member: b@ }),
        (ConfigError::DuplicateLightMember { member: a })@ == (Fault::DuplicateLightMember {
            member: a@,
        }),
        ConfigError::EmptyHealthCommand@ == Fault::EmptyHealthCommand,
        ConfigError::EmptyPushListen@ == Fault::EmptyPushListen,
        ConfigError::EmptyMeshCommand@ == Fault::EmptyMeshCommand,
{
}

} // verus!
