//! What lists, charts and reports say of the configuration and of the rows
//! they were made from.

use vstd::prelude::*;

use crate::catalog;
use crate::catalog::{DeviceInfo, GraphInfo, GroupInfo, PresetInfo};
use crate::charts;
use crate::charts::{GraphPlan, GraphView, HealthView};
use crate::config;
use crate::config::{Config, Device, Graph, Group, Health, Preset};
use crate::config_laws;
use crate::control_laws;
use crate::dict::Dict;
use crate::graph;
use crate::health;
use crate::json::JsonView;
use crate::reply::Reply;
use crate::subprocess::ExecOutcome;
use crate::text;
use crate::wire;

verus! {

/// The text is the first where that is given, else the second.
pub open spec fn is_label(shown: Seq<char>, label: Option<String>, name: String) -> bool {
    match label {
        Some(l) => shown == l@,
        None => shown == name@,
    }
}

/// The text that is there is the one that was given.
pub open spec fn same_text(shown: Option<String>, given: Option<String>) -> bool {
    match given {
        Some(g) => shown matches Some(s) && s@ == g@,
        None => shown is None,
    }
}

/// The same texts in the same order.
pub open spec fn same_texts(shown: Seq<String>, given: Seq<String>) -> bool {
    shown.len() == given.len() && forall|i: int|
        0 <= i < given.len() ==> (#[trigger] shown[i])@ == given[i]@
}

/// Views of texts: each is there exactly where the text is.
pub proof fn lemma_texts(t: String, s: &str, list: Seq<String>, other: Seq<String>)
    ensures
        text::held(Some(t)) == Some(t@),
        text::held(None) is None,
        text::read(Some(s)) == Some(s@),
        text::read(None) is None,
        text::texts(list) == text::texts(other) <==> same_texts(list, other),
{
    if text::texts(list) == text::texts(other) {
        assert(text::texts(list).len() == list.len());
        assert(text::texts(other).len() == other.len());
        assert forall|i: int| 0 <= i < other.len() implies (#[trigger] list[i])@ == other[i]@ by {
            assert(text::texts(list)[i] == text::texts(other)[i]);
        }
    }
    if same_texts(list, other) {
        assert(text::texts(list) =~= text::texts(other));
    }
}

/// A preset is listed with its name, its label and its colour.
pub proof fn lemma_listed_preset(info: PresetInfo, p: Preset)
    requires
        catalog::lists_preset(info, p),
    ensures
        info.name@ == p.name@,
        is_label(info.label@, p.label, p.name),
        same_text(info.color, p.color),
{
}

/// A device is listed with its name, label, kind, face, members and presets,
/// and with what it can do.
pub proof fn lemma_listed_device(info: DeviceInfo, d: Device)
    requires
        catalog::lists_device(info, d),
    ensures
        info.name@ == d.name@,
        is_label(info.label@, d.label, d.name),
        info.kind == d.kind,
        info.face == d.face,
        info.stop <==> d.stop is Some,
        info.color_supported <==> d.color is Some,
        info.brightness_supported <==> d.brightness is Some,
        same_texts(info.members@, d.members@),
        info.presets@.len() == d.presets@.len(),
        forall|k: int|
            0 <= k < d.presets@.len() ==> (#[trigger] info.presets@[k]).name@
                == d.presets@[k].name@ && is_label(
                info.presets@[k].label@,
                d.presets@[k].label,
                d.presets@[k].name,
            ) && same_text(info.presets@[k].color, d.presets@[k].color),
{
    lemma_texts(d.name, "", info.members@, d.members@);
    assert forall|k: int| 0 <= k < d.presets@.len() implies (#[trigger] info.presets@[k]).name@
        == d.presets@[k].name@ && is_label(
        info.presets@[k].label@,
        d.presets@[k].label,
        d.presets@[k].name,
    ) && same_text(info.presets@[k].color, d.presets@[k].color) by {
        lemma_listed_preset(info.presets@[k], d.presets@[k]);
    }
}

/// A group is listed with its name, label and members. It can be stopped
/// exactly where none of its members is a device without a stop command.
pub proof fn lemma_listed_group(info: GroupInfo, devices: Seq<Device>, g: Group)
    requires
        catalog::lists_group(info, devices, g),
    ensures
        info.name@ == g.name@,
        is_label(info.label@, g.label, g.name),
        same_texts(info.members@, g.members@),
        info.stop <==> forall|k: int, i: int|
            0 <= k < g.members@.len() && #[trigger] control_laws::goes_by(
                devices,
                i,
                (#[trigger] g.members@[k])@,
            ) ==> devices[i].stop is Some,
{
    lemma_texts(g.name, "", info.members@, g.members@);
    if info.stop {
        assert forall|k: int, i: int|
            0 <= k < g.members@.len() && #[trigger] control_laws::goes_by(
                devices,
                i,
                (#[trigger] g.members@[k])@,
            ) implies devices[i].stop is Some by {
            control_laws::lemma_found(devices, i, g.members@[k]@);
        }
    } else {
        let k = choose|k: int|
            0 <= k < g.members@.len() && !(config::find_device(devices, (#[trigger] g.members@[k])@)
                matches Some(d) ==> d.stop is Some);
        let name = g.members@[k]@;
        config_laws::lemma_find_device(devices, name);
        let d = config::find_device(devices, name)->0;
        let i = choose|i: int|
            0 <= i < devices.len() && #[trigger] devices[i] == d && d.name@ == name && forall|
                j: int,
            |
                0 <= j < i ==> (#[trigger] devices[j]).name@ != name;
        assert(control_laws::goes_by(devices, i, g.members@[k]@));
    }
}

/// A graph is listed with its name and label.
pub proof fn lemma_listed_graph(info: GraphInfo, g: Graph)
    requires
        catalog::lists_graph(info, g),
    ensures
        info.name@ == g.name@,
        is_label(info.label@, g.label, g.name),
{
}

/// The graph at `i` is the first of that name.
pub open spec fn graph_goes_by(graphs: Seq<Graph>, i: int, name: Seq<char>) -> bool {
    &&& 0 <= i < graphs.len()
    &&& graphs[i].name@ == name
    &&& forall|j: int| 0 <= j < i ==> (#[trigger] graphs[j]).name@ != name
}

/// A request for a chart runs the query of the graph with the period in it:
/// that of the request, or today where it names none. Any other period than
/// today, the week and the month is refused.
pub proof fn lemma_query_is_filled_in(
    c: Config,
    i: int,
    name: Seq<char>,
    given: Option<Seq<char>>,
    plan: GraphPlan<'_>,
)
    requires
        graph_goes_by(c.graphs@, i, name),
        charts::plans_graph(c, name, given, plan),
    ensures
        ({
            let asked = match given {
                Some(p) => p,
                None => "today"@,
            };
            if asked == "today"@ || asked == "week"@ || asked == "month"@ {
                plan matches GraphPlan::Run { graph, period, cmd } && *graph == c.graphs@[i]
                    && period@ == asked && control_laws::made_from(
                    cmd@,
                    c.graphs@[i].query@,
                    "{period}"@,
                    asked,
                )
            } else {
                plan matches GraphPlan::Refuse(r) && r.status == 400 && r.body@
                    == "{\"error\":\"invalid period\",\"period\":"@ + wire::literal(asked) + "}"@
            }
        }),
{
    config_laws::lemma_find_graph(c.graphs@, name);
    assert(c.graphs@[i].name@ == name);
    let g = config::find_graph(c.graphs@, name)->0;
    let j = choose|j: int|
        0 <= j < c.graphs@.len() && #[trigger] c.graphs@[j] == g && g.name@ == name && forall|
            k: int,
        |
            0 <= k < j ==> (#[trigger] c.graphs@[k]).name@ != name;
    if i < j {
        assert(c.graphs@[i].name@ != name);
    } else if j < i {
        assert(c.graphs@[j].name@ != name);
    }
    if let GraphPlan::Run { graph, period, cmd } = plan {
        assert(text::texts(cmd@).len() == cmd@.len());
        assert forall|k: int| 0 <= k < cmd@.len() implies (#[trigger] cmd@[k])@ == text::replaced(
            graph.query@[k]@,
            "{period}"@,
            period@,
        ) by {
            assert(text::texts(cmd@)[k] == cmd@[k]@);
        }
    }
}

/// A graph that there is not is refused as that.
pub proof fn lemma_unknown_graph_is_refused(
    c: Config,
    name: Seq<char>,
    given: Option<Seq<char>>,
    plan: GraphPlan<'_>,
)
    requires
        forall|j: int| 0 <= j < c.graphs@.len() ==> (#[trigger] c.graphs@[j]).name@ != name,
        charts::plans_graph(c, name, given, plan),
    ensures
        plan matches GraphPlan::Refuse(r) && r.status == 404 && r.body@
            == "{\"error\":\"unknown graph\",\"name\":"@ + wire::literal(name) + "}"@,
{
    config_laws::lemma_find_graph(c.graphs@, name);
}

/// The display names are those of the map, and without a map there are none.
pub proof fn lemma_names(d: Dict<String>, name: Seq<char>)
    ensures
        charts::names(Some(d)).contains_key(name) <==> d@.contains_key(name),
        d@.contains_key(name) ==> charts::names(Some(d))[name] == d@[name]@,
        !charts::names(None).contains_key(name),
{
}

/// A chart has the name, the form and the label of its graph, the unit of its
/// period, and the series and the number of the rows; with a number comes the
/// unit by day.
pub proof fn lemma_chart_of(g: Graph, period: Seq<char>, rows: Seq<JsonView>)
    ensures
        ({
            let v = charts::chart_of(g, period, rows);
            let label = match g.label {
                Some(l) => l@,
                None => g.name@,
            };
            let read = graph::chart(rows, label, charts::names(g.series_labels));
            let by_day = match g.unit_daily {
                Some(u) => u@,
                None => g.unit@,
            };
            &&& v.name == g.name@
            &&& v.period == period
            &&& period == "today"@ ==> v.unit == g.unit@
            &&& period != "today"@ ==> v.unit == by_day
            &&& v.chart == text::held(g.chart)
            &&& v.series == read.series
            &&& v.summary == read.summary
            &&& v.summary_unit is Some <==> v.summary is Some
            &&& v.summary_unit matches Some(u) ==> u == by_day
        }),
{
}

/// A query is answered with its chart exactly where it succeeded and printed a
/// list, and else as failed.
pub proof fn lemma_chart_answer(
    g: Graph,
    period: Seq<char>,
    outcome: ExecOutcome,
    document: Option<JsonView>,
    r: Result<GraphView, Reply>,
)
    requires
        charts::answers_graph(g, period, outcome, document, r),
    ensures
        r is Ok <==> outcome == ExecOutcome::Success && (document matches Some(d) && d is Array),
        r matches Ok(v) ==> (document matches Some(JsonView::Array(rows)) && v@
            == charts::chart_of(g, period, rows)),
        r matches Err(e) ==> e.status == 502 && e.body@
            == "{\"error\":\"graph query failed\",\"name\":"@ + wire::literal(g.name@) + "}"@,
{
}

/// A query for health is answered with its report exactly where it succeeded
/// and printed a list, and else as failed.
pub proof fn lemma_health_answer(
    h: Health,
    outcome: ExecOutcome,
    document: Option<JsonView>,
    r: Result<HealthView, Reply>,
)
    requires
        charts::answers_health(h, outcome, document, r),
    ensures
        r is Ok <==> outcome == ExecOutcome::Success && (document matches Some(d) && d is Array),
        r matches Ok(v) ==> (document matches Some(JsonView::Array(rows)) && v.report@
            == health::report(rows, charts::names(h.labels)) && same_text(v.label, h.label)),
        r matches Err(e) ==> e.status == 502 && e.body@ == "{\"error\":\"health query failed\"}"@,
{
}

/// A query for a chart or for health may run for half a minute.
pub proof fn lemma_query_limit()
    ensures
        charts::GRAPH_QUERY_TIMEOUT_MS == 30_000,
{
}

} // verus!
