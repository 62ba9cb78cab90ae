//! The members of each answer, one by one.

use vstd::prelude::*;

use crate::answers;
use crate::answers::Answer;
use crate::catalog::{DeviceInfo, GraphInfo, GroupInfo, PresetInfo};
use crate::charts::{GraphView, HealthView};
use crate::config::{Face, Kind};
use crate::graph::GraphSeries;
use crate::groups::GroupMemberResult;
use crate::health::HealthItem;
use crate::json::JsonView;
use crate::mesh::{MeshEdge, MeshNetwork, MeshNode, MeshView};
use crate::mesh_job::MeshStatusView;
use crate::push::StateEvent;
use crate::shape;
use crate::shape::ShapeModel;
use crate::state::State;
use crate::status::{ActionView, LightActionView, LightStateView, StateModel, StateView};
use crate::subprocess::ExecOutcome;

verus! {

/// The answer is a record of that many members.
pub open spec fn has_len(s: ShapeModel, n: int) -> bool {
    s matches ShapeModel::Record(m) && m.len() == n
}

/// The member at `k` of the answer has that name and says that.
pub open spec fn at(s: ShapeModel, k: int, name: Seq<char>, value: ShapeModel) -> bool {
    s matches ShapeModel::Record(m) && 0 <= k < m.len() && m[k].0 == name && m[k].1 == value
}

/// One where it holds, else none.
pub open spec fn one(b: bool) -> int {
    if b {
        1
    } else {
        0
    }
}

/// A text, or `null` where there is none.
pub open spec fn text_or_null(t: Option<String>) -> ShapeModel {
    match t {
        Some(s) => ShapeModel::Text(s@),
        None => ShapeModel::Null,
    }
}

/// A number, or `null` where there is none.
pub open spec fn count_or_null(n: Option<u64>) -> ShapeModel {
    match n {
        Some(n) => ShapeModel::Count(n),
        None => ShapeModel::Null,
    }
}

/// A document, or `null` where there is none.
pub open spec fn raw_or_null(j: Option<JsonView>) -> ShapeModel {
    match j {
        Some(j) => ShapeModel::Raw(j),
        None => ShapeModel::Null,
    }
}

/// The words for states.
pub proof fn lemma_words_for_states()
    ensures
        answers::state_word(State::Open) == "open"@,
        answers::state_word(State::Closed) == "closed"@,
        answers::state_word(State::Opening) == "opening"@,
        answers::state_word(State::Closing) == "closing"@,
        answers::state_word(State::Stopped) == "stopped"@,
        answers::state_word(State::On) == "on"@,
        answers::state_word(State::Off) == "off"@,
        answers::state_word(State::Unknown) == "unknown"@,
{
}

/// The words for outcomes, kinds and faces.
pub proof fn lemma_words_for_the_rest()
    ensures
        answers::outcome_word(ExecOutcome::Success) == "success"@,
        answers::outcome_word(ExecOutcome::Timeout) == "timeout"@,
        answers::outcome_word(ExecOutcome::Rejected) == "rejected"@,
        answers::outcome_word(ExecOutcome::NetworkError) == "network_error"@,
        answers::outcome_word(ExecOutcome::Failed) == "failed"@,
        answers::outcome_word(ExecOutcome::SpawnFailed) == "spawn_failed"@,
        answers::kind_word(Kind::Shutter) == "shutter"@,
        answers::kind_word(Kind::Light) == "light"@,
        answers::kind_word(Kind::Switch) == "switch"@,
        answers::face_word(Face::Light) == "light"@,
{
}

/// A word that is answered for a known state is read as that state again.
pub proof fn lemma_state_words_are_read(s: State)
    ensures
        crate::state::word_state(answers::state_word(s)) == s,
{
    if s != State::Unknown {
        crate::state_laws::lemma_word_as_it_is(answers::state_word(s));
        crate::state_laws::lemma_word_meaning(
            answers::state_word(s),
            answers::state_word(s),
            s,
        );
    } else {
        crate::state_laws::lemma_unknown_word();
    }
}

/// A list of answers has one element for each, in order.
pub proof fn lemma_list<T: Answer>(list: Seq<T>, i: int)
    requires
        0 <= i < list.len(),
    ensures
        answers::list_says(list) matches ShapeModel::List(l) && l.len() == list.len() && l[i]
            == list[i].says(),
{
}

/// An empty list of answers is an empty list.
pub proof fn lemma_empty_list<T: Answer>()
    ensures
        answers::list_says(Seq::<T>::empty()) matches ShapeModel::List(l) && l.len() == 0,
{
}

/// A list of texts has one text for each, in order.
pub proof fn lemma_text_list(list: Seq<Seq<char>>, i: int)
    requires
        0 <= i < list.len(),
    ensures
        shape::texts_model(list) matches ShapeModel::List(l) && l.len() == list.len() && l[i]
            == ShapeModel::Text(list[i]),
{
}

/// The members of a preset.
pub proof fn lemma_preset_members(p: PresetInfo)
    ensures
        has_len(p.says(), 3),
        at(p.says(), 0, "name"@, ShapeModel::Text(p.name@)),
        at(p.says(), 1, "label"@, ShapeModel::Text(p.label@)),
        at(p.says(), 2, "color"@, text_or_null(p.color)),
{
}

/// The members of a device; those of its card come last, where it has some.
pub proof fn lemma_device_members(d: DeviceInfo)
    ensures
        has_len(d.says(), 8 + one(d.members@.len() > 0)),
        at(d.says(), 0, "name"@, ShapeModel::Text(d.name@)),
        at(d.says(), 1, "label"@, ShapeModel::Text(d.label@)),
        at(d.says(), 2, "kind"@, ShapeModel::Text(answers::kind_word(d.kind))),
        at(d.says(), 3, "stop"@, ShapeModel::Flag(d.stop)),
        at(d.says(), 4, "color_supported"@, ShapeModel::Flag(d.color_supported)),
        at(d.says(), 5, "brightness_supported"@, ShapeModel::Flag(d.brightness_supported)),
        at(d.says(), 6, "presets"@, answers::list_says(d.presets@)),
        d.face is None ==> at(d.says(), 7, "face"@, ShapeModel::Null),
        d.face matches Some(f) ==> at(
            d.says(),
            7,
            "face"@,
            ShapeModel::Text(answers::face_word(f)),
        ),
        d.members@.len() > 0 ==> at(
            d.says(),
            8,
            "members"@,
            shape::texts_model(crate::text::texts(d.members@)),
        ),
{
}

/// The members of a group.
pub proof fn lemma_group_members(g: GroupInfo)
    ensures
        has_len(g.says(), 4),
        at(g.says(), 0, "name"@, ShapeModel::Text(g.name@)),
        at(g.says(), 1, "label"@, ShapeModel::Text(g.label@)),
        at(g.says(), 2, "members"@, shape::texts_model(crate::text::texts(g.members@))),
        at(g.says(), 3, "stop"@, ShapeModel::Flag(g.stop)),
{
}

/// The members of a graph.
pub proof fn lemma_graph_members(g: GraphInfo)
    ensures
        has_len(g.says(), 2),
        at(g.says(), 0, "name"@, ShapeModel::Text(g.name@)),
        at(g.says(), 1, "label"@, ShapeModel::Text(g.label@)),
{
}

/// The members that tell a state stand from the place `k` on.
pub open spec fn tells_state(s: ShapeModel, k: int, m: StateModel) -> bool {
    &&& at(s, k, "state"@, ShapeModel::Text(answers::state_word(m.state)))
    &&& at(s, k + 1, "exec"@, ShapeModel::Text(answers::outcome_word(m.outcome)))
    &&& at(s, k + 2, "raw"@, raw_or_null(m.raw))
}

/// The members of a state, of an action with the state after it, of one
/// without, and of what became of one member of a group.
pub proof fn lemma_state_members(
    v: StateView,
    a: ActionView,
    l: LightActionView,
    g: GroupMemberResult,
)
    ensures
        has_len(v.says(), 3),
        tells_state(v.says(), 0, v@),
        has_len(a.says(), 4),
        at(a.says(), 0, "action"@, ShapeModel::Text(answers::outcome_word(a.action))),
        tells_state(a.says(), 1, a.state@),
        has_len(l.says(), 1),
        at(l.says(), 0, "action"@, ShapeModel::Text(answers::outcome_word(l.action))),
        has_len(g.says(), 6),
        at(g.says(), 0, "name"@, ShapeModel::Text(g.name@)),
        at(g.says(), 1, "skipped"@, ShapeModel::Flag(g.skipped)),
        at(g.says(), 2, "action"@, ShapeModel::Text(answers::outcome_word(g.result.action))),
        tells_state(g.says(), 3, g.result.state@),
{
}

/// The members of the state of a pushed light. The outcome is left out where
/// no command was run.
pub proof fn lemma_light_members(v: LightStateView)
    ensures
        ({
            let k = one(v.outcome is Some);
            &&& has_len(v.says(), 4 + k)
            &&& at(v.says(), 0, "state"@, ShapeModel::Text(answers::state_word(v.state)))
            &&& v.outcome matches Some(o) ==> at(
                v.says(),
                1,
                "exec"@,
                ShapeModel::Text(answers::outcome_word(o)),
            )
            &&& at(v.says(), 1 + k, "raw"@, raw_or_null(v@.raw))
            &&& at(v.says(), 2 + k, "source"@, ShapeModel::Text(v.source@))
            &&& at(v.says(), 3 + k, "stale"@, ShapeModel::Flag(v.stale))
        }),
{
}

/// The members of a change that is told.
pub proof fn lemma_event_members(e: StateEvent)
    ensures
        has_len(e.says(), 4),
        at(e.says(), 0, "device"@, ShapeModel::Text(e.device@)),
        at(e.says(), 1, "state"@, ShapeModel::Text(answers::state_word(e.state))),
        at(e.says(), 2, "source"@, ShapeModel::Text(e.source@)),
        at(e.says(), 3, "stale"@, ShapeModel::Flag(e.stale)),
{
}

/// The members of a series. A point is a list of its time and its value.
pub proof fn lemma_series_members(s: GraphSeries, i: int)
    requires
        0 <= i < s.points@.len(),
    ensures
        has_len(s.says(), 2),
        at(s.says(), 0, "label"@, ShapeModel::Text(s.label@)),
        s.says() matches ShapeModel::Record(m) && m[1].0 == "points"@ && (
        m[1].1 matches ShapeModel::List(l) && l.len() == s.points@.len() && (
        l[i] matches ShapeModel::List(p) && p.len() == 2 && p[0] == ShapeModel::Text(
            s.points@[i].0@,
        ) && p[1] == ShapeModel::Real(s.points@[i].1))),
{
}

/// The members of a chart. Its form, its number and the unit of that are left
/// out where there is none.
pub proof fn lemma_chart_members(v: GraphView)
    ensures
        ({
            let a = one(v.chart is Some);
            let b = a + one(v.summary is Some);
            let c = b + one(v.summary_unit is Some);
            &&& has_len(v.says(), 4 + c)
            &&& at(v.says(), 0, "name"@, ShapeModel::Text(v.name@))
            &&& at(v.says(), 1, "period"@, ShapeModel::Text(v.period@))
            &&& at(v.says(), 2, "unit"@, ShapeModel::Text(v.unit@))
            &&& v.chart matches Some(t) ==> at(v.says(), 3, "chart"@, ShapeModel::Text(t@))
            &&& v.summary matches Some(d) ==> at(v.says(), 3 + a, "summary"@, ShapeModel::Real(d))
            &&& v.summary_unit matches Some(t) ==> at(
                v.says(),
                3 + b,
                "summary_unit"@,
                ShapeModel::Text(t@),
            )
            &&& at(v.says(), 3 + c, "series"@, answers::list_says(v.series@))
        }),
{
}

/// The members of a metric. Its value and its time are left out where there is
/// none.
pub proof fn lemma_item_members(i: HealthItem)
    ensures
        ({
            let a = one(i.value is Some);
            let b = a + one(i.ts is Some);
            &&& has_len(i.says(), 2 + b)
            &&& at(i.says(), 0, "label"@, ShapeModel::Text(i.label@))
            &&& i.value matches Some(d) ==> at(i.says(), 1, "value"@, ShapeModel::Real(d))
            &&& i.ts matches Some(t) ==> at(i.says(), 1 + a, "ts"@, ShapeModel::Text(t@))
            &&& at(i.says(), 1 + b, "level"@, ShapeModel::Text(i.level@))
        }),
{
}

/// The members of a report. Its label is left out where there is none.
pub proof fn lemma_report_members(v: HealthView)
    ensures
        ({
            let a = one(v.label is Some);
            &&& has_len(v.says(), 2 + a)
            &&& v.label matches Some(t) ==> at(v.says(), 0, "label"@, ShapeModel::Text(t@))
            &&& at(v.says(), a, "worst"@, ShapeModel::Text(v.report.worst@))
            &&& at(v.says(), 1 + a, "items"@, answers::list_says(v.report.items@))
        }),
{
}

/// The members of a network.
pub proof fn lemma_network_members(n: MeshNetwork)
    ensures
        has_len(n.says(), 4),
        at(n.says(), 0, "name"@, text_or_null(n.name)),
        at(n.says(), 1, "channel"@, count_or_null(n.channel)),
        at(n.says(), 2, "leader_router_id"@, count_or_null(n.leader_router_id)),
        at(n.says(), 3, "split"@, ShapeModel::Flag(n.split)),
{
}

/// The members of a participant. Whether it answered and why it did not are
/// left out where they are not known.
pub proof fn lemma_node_members(n: MeshNode)
    ensures
        ({
            let a = one(n.probed is Some);
            let b = a + one(n.error_kind is Some);
            &&& has_len(n.says(), 5 + b)
            &&& at(n.says(), 0, "id"@, ShapeModel::Text(n.id@))
            &&& at(n.says(), 1, "name"@, ShapeModel::Text(n.name@))
            &&& at(n.says(), 2, "kind"@, ShapeModel::Text(n.kind@))
            &&& at(n.says(), 3, "role"@, ShapeModel::Text(n.role@))
            &&& at(n.says(), 4, "is_leader"@, ShapeModel::Flag(n.is_leader))
            &&& n.probed matches Some(p) ==> at(n.says(), 5, "probed"@, ShapeModel::Flag(p))
            &&& n.error_kind matches Some(t) ==> at(
                n.says(),
                5 + a,
                "error_kind"@,
                ShapeModel::Text(t@),
            )
        }),
{
}

/// The members of a link. What was not measured is left out.
pub proof fn lemma_edge_members(e: MeshEdge)
    ensures
        ({
            let a = one(e.lqi is Some);
            let b = a + one(e.rssi is Some);
            let c = b + one(e.fer is Some);
            &&& has_len(e.says(), 3 + c)
            &&& at(e.says(), 0, "a"@, ShapeModel::Text(e.a@))
            &&& at(e.says(), 1, "b"@, ShapeModel::Text(e.b@))
            &&& at(e.says(), 2, "grade"@, ShapeModel::Text(e.grade@))
            &&& e.lqi matches Some(n) ==> at(e.says(), 3, "lqi"@, ShapeModel::Count(n as u64))
            &&& e.rssi matches Some(n) ==> at(e.says(), 3 + a, "rssi"@, ShapeModel::Signed(n))
            &&& e.fer matches Some(n) ==> at(e.says(), 3 + b, "fer"@, ShapeModel::Count(n as u64))
        }),
{
}

/// The members of a mesh.
pub proof fn lemma_mesh_members(v: MeshView)
    ensures
        has_len(v.says(), 5),
        at(v.says(), 0, "network"@, v.network.says()),
        at(v.says(), 1, "nodes"@, answers::list_says(v.nodes@)),
        at(v.says(), 2, "edges"@, answers::list_says(v.edges@)),
        at(v.says(), 3, "unidentified_count"@, ShapeModel::Count(v.unidentified_count as u64)),
        at(v.says(), 4, "fetched_at"@, text_or_null(v.fetched_at)),
{
}

/// The members of the state of the reading of a mesh. All but the word and
/// whether it is stale are left out where there is none.
pub proof fn lemma_mesh_status_members(v: MeshStatusView<'_>)
    ensures
        ({
            let a = one(v.label is Some);
            let b = a + one(v.age_ms is Some);
            let c = b + one(v.elapsed_ms is Some);
            let d = c + one(v.snapshot is Some);
            let e = d + one(v.error is Some);
            &&& has_len(v.says(), 2 + e)
            &&& at(v.says(), 0, "status"@, ShapeModel::Text(v.status@))
            &&& v.label matches Some(t) ==> at(v.says(), 1, "label"@, ShapeModel::Text(t@))
            &&& at(v.says(), 1 + a, "stale"@, ShapeModel::Flag(v.stale))
            &&& v.age_ms matches Some(n) ==> at(v.says(), 2 + a, "age_ms"@, ShapeModel::Count(n))
            &&& v.elapsed_ms matches Some(n) ==> at(
                v.says(),
                2 + b,
                "elapsed_ms"@,
                ShapeModel::Count(n),
            )
            &&& v.snapshot matches Some(s) ==> at(v.says(), 2 + c, "snapshot"@, s.says())
            &&& v.error matches Some(t) ==> at(v.says(), 2 + d, "error"@, ShapeModel::Text(t@))
        }),
{
}

} // verus!
