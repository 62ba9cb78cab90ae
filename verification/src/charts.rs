//! Answering charts and the report on health.

use vstd::prelude::*;

use crate::config;
use crate::config::{Config, Graph, Health};
use crate::control;
use crate::dict;
use crate::dict::Dict;
use crate::graph;
use crate::graph::{GraphSeries, SeriesModel};
use crate::health;
use crate::health::HealthReport;
use crate::json;
use crate::json::{Json, JsonView, Double};
use crate::reply;
use crate::reply::Reply;
use crate::subprocess::{ExecOutcome, ExecResult};
use crate::text;
use crate::wire;

verus! {

/// The longest that a query for a chart or for health may run, in
/// milliseconds.
pub const GRAPH_QUERY_TIMEOUT_MS: u64 = 30000;

/// The periods a chart can be asked for.
pub open spec fn known_period(period: Seq<char>) -> bool {
    period == "today"@ || period == "week"@ || period == "month"@
}

/// The period of a request that may not name one.
pub open spec fn period_of(given: Option<Seq<char>>) -> Seq<char> {
    match given {
        Some(p) => p,
        None => "today"@,
    }
}

/// What a request for a chart comes to.
#[derive(Debug)]
pub enum GraphPlan<'a> {
    /// It is refused.
    Refuse(Reply),
    /// The query is run for that period.
    Run { graph: &'a Graph, period: String, cmd: Vec<String> },
}

/// What a request for a chart comes to. Only a known period is put into the
/// query.
pub open spec fn plans_graph(
    c: Config,
    name: Seq<char>,
    given: Option<Seq<char>>,
    plan: GraphPlan<'_>,
) -> bool {
    match config::find_graph(c.graphs@, name) {
        None => plan matches GraphPlan::Refuse(r) && reply::says_unknown_graph(r, name),
        Some(g) => if known_period(period_of(given)) {
            plan matches GraphPlan::Run { graph, period, cmd } && *graph == g && period@
                == period_of(given) && text::texts(cmd@) == control::filled(
                g.query@,
                "{period}"@,
                period_of(given),
            )
        } else {
            plan matches GraphPlan::Refuse(r) && reply::says_invalid_period(r, period_of(given))
        },
    }
}

/// What a request for a chart comes to.
pub fn plan_graph<'a>(config: &'a Config, name: &str, period: Option<&str>) -> (plan: GraphPlan<'a>)
    ensures
        plans_graph(*config, name@, text::read(period), plan),
{
    let graph = match config.find_graph(name) {
        Some(graph) => graph,
        None => return GraphPlan::Refuse(reply::unknown_graph(name)),
    };
    let period = match period {
        Some(p) => p,
        None => "today",
    };
    if !(text::same(period, "today") || text::same(period, "week") || text::same(period, "month")) {
        return GraphPlan::Refuse(reply::invalid_period(period));
    }
    proof {
        reveal_strlit("{period}");
    }
    GraphPlan::Run {
        graph,
        period: period.to_owned(),
        cmd: control::fill(graph.query.as_slice(), "{period}", period),
    }
}

/// A chart as it is answered.
#[derive(Debug)]
pub struct GraphView {
    pub name: String,
    pub period: String,
    pub unit: String,
    pub chart: Option<String>,
    pub summary: Option<Double>,
    pub summary_unit: Option<String>,
    pub series: Vec<GraphSeries>,
}

/// What a chart that is answered says.
pub struct GraphViewModel {
    pub name: Seq<char>,
    pub period: Seq<char>,
    pub unit: Seq<char>,
    pub chart: Option<Seq<char>>,
    pub summary: Option<Double>,
    pub summary_unit: Option<Seq<char>>,
    pub series: Seq<SeriesModel>,
}

impl View for GraphView {
    type V = GraphViewModel;

    open spec fn view(&self) -> GraphViewModel {
        GraphViewModel {
            name: self.name@,
            period: self.period@,
            unit: self.unit@,
            chart: text::held(self.chart),
            summary: self.summary,
            summary_unit: text::held(self.summary_unit),
            series: graph::series_models(self.series@),
        }
    }
}

/// The display names of an optional map.
pub open spec fn names(labels: Option<Dict<String>>) -> Map<Seq<char>, Seq<char>> {
    match labels {
        Some(d) => dict::display_names(Some(&d)),
        None => dict::display_names(None),
    }
}

fn lend(labels: &Option<Dict<String>>) -> (r: Option<&Dict<String>>)
    ensures
        dict::display_names(r) == names(*labels),
{
    match labels {
        Some(d) => Some(d),
        None => None,
    }
}

/// The chart that rows give for a graph and a period. The unit of the number
/// beside the title is given where there is such a number.
pub open spec fn chart_of(g: Graph, period: Seq<char>, rows: Seq<JsonView>) -> GraphViewModel {
    let c = graph::chart(rows, config::either(g.label, g.name), names(g.series_labels));
    GraphViewModel {
        name: g.name@,
        period,
        unit: g.unit_in(period),
        chart: text::held(g.chart),
        summary: c.summary,
        summary_unit: if c.summary is Some {
            Some(g.daily_unit())
        } else {
            None
        },
        series: c.series,
    }
}

/// What a query that ended that way and printed that document is answered: the
/// chart where it succeeded and printed rows, else that it failed.
pub open spec fn answers_graph(
    g: Graph,
    period: Seq<char>,
    outcome: ExecOutcome,
    document: Option<JsonView>,
    r: Result<GraphView, Reply>,
) -> bool {
    match document {
        Some(JsonView::Array(rows)) if outcome == ExecOutcome::Success => r matches Ok(v) && v@
            == chart_of(g, period, rows),
        _ => r matches Err(e) && reply::says_graph_failed(e, g.name@),
    }
}

/// What a query that ended that way and printed that document is answered.
pub fn view_graph(
    graph: &Graph,
    period: &str,
    outcome: ExecOutcome,
    document: Option<Json>,
) -> (r: Result<GraphView, Reply>)
    ensures
        answers_graph(*graph, period@, outcome, json::stated(document), r),
{
    broadcast use crate::json::lemma_json_view;

    if outcome != ExecOutcome::Success {
        return Err(reply::graph_unavailable(graph.name.as_str()));
    }
    let rows = match document {
        Some(Json::Array(rows)) => rows,
        _ => return Err(reply::graph_unavailable(graph.name.as_str())),
    };
    let normalized = graph::normalize_graph_rows(
        rows.as_slice(),
        graph.label(),
        lend(&graph.series_labels),
    );
    let summary_unit = match normalized.summary {
        Some(_) => Some(graph.summary_unit().to_owned()),
        None => None,
    };
    Ok(
        GraphView {
            name: graph.name.clone(),
            period: period.to_owned(),
            unit: graph.unit_for(period).to_owned(),
            chart: match &graph.chart {
                Some(c) => Some(c.clone()),
                None => None,
            },
            summary: normalized.summary,
            summary_unit,
            series: normalized.series,
        },
    )
}

/// What a query is answered, from how it ended and what it printed.
pub fn get_graph(graph: &Graph, period: &str, result: &ExecResult) -> (r: Result<GraphView, Reply>)
    ensures
        answers_graph(*graph, period@, result.outcome, wire::document(result.stdout@), r),
{
    view_graph(graph, period, result.outcome, wire::parse(result.stdout.as_str()))
}

/// A report on health as it is answered.
#[derive(Debug)]
pub struct HealthView {
    pub label: Option<String>,
    pub report: HealthReport,
}

/// What a request for the report on health comes to.
#[derive(Debug)]
pub enum HealthPlan<'a> {
    /// It is refused.
    Refuse(Reply),
    /// The command of the report is run.
    Run(&'a Health),
}

/// What a request for the report on health comes to.
pub fn plan_health<'a>(config: &'a Config) -> (plan: HealthPlan<'a>)
    ensures
        match config.health {
            None => plan matches HealthPlan::Refuse(r) && reply::says_no_health(r),
            Some(h) => plan matches HealthPlan::Run(p) && *p == h,
        },
{
    match &config.health {
        Some(h) => HealthPlan::Run(h),
        None => HealthPlan::Refuse(reply::health_not_configured()),
    }
}

/// What a query that ended that way and printed that document is answered: the
/// report where it succeeded and printed rows, else that it failed.
pub open spec fn answers_health(
    h: Health,
    outcome: ExecOutcome,
    document: Option<JsonView>,
    r: Result<HealthView, Reply>,
) -> bool {
    match document {
        Some(JsonView::Array(rows)) if outcome == ExecOutcome::Success => r matches Ok(v)
            && text::held(v.label) == text::held(h.label) && v.report@ == health::report(
            rows,
            names(h.labels),
        ),
        _ => r matches Err(e) && reply::says_health_failed(e),
    }
}

/// What a query that ended that way and printed that document is answered.
pub fn view_health(health: &Health, outcome: ExecOutcome, document: Option<Json>) -> (r: Result<
    HealthView,
    Reply,
>)
    ensures
        answers_health(*health, outcome, json::stated(document), r),
{
    broadcast use crate::json::lemma_json_view;

    if outcome != ExecOutcome::Success {
        return Err(reply::health_unavailable());
    }
    let rows = match document {
        Some(Json::Array(rows)) => rows,
        _ => return Err(reply::health_unavailable()),
    };
    Ok(
        HealthView {
            label: match &health.label {
                Some(l) => Some(l.clone()),
                None => None,
            },
            report: health::normalize_health_rows(rows.as_slice(), lend(&health.labels)),
        },
    )
}

/// What a query is answered, from how it ended and what it printed.
pub fn get_health(health: &Health, result: &ExecResult) -> (r: Result<HealthView, Reply>)
    ensures
        answers_health(*health, result.outcome, wire::document(result.stdout@), r),
{
    view_health(health, result.outcome, wire::parse(result.stdout.as_str()))
}

/// The graph found under a name is one of the graphs.
proof fn lemma_find_graph(graphs: Seq<Graph>, name: Seq<char>)
    ensures
        config::find_graph(graphs, name) matches Some(g) ==> exists|i: int|
            0 <= i < graphs.len() && graphs[i] == g,
    decreases graphs.len(),
{
    if graphs.len() > 0 {
        if graphs.first().name@ == name {
            assert(graphs[0] == graphs.first());
        } else {
            lemma_find_graph(graphs.drop_first(), name);
            if let Some(g) = config::find_graph(graphs.drop_first(), name) {
                let i = choose|i: int|
                    0 <= i < graphs.drop_first().len() && graphs.drop_first()[i] == g;
                assert(graphs[i + 1] == g);
            }
        }
    }
}

/// In a configuration that keeps the rules every query that is run has a first
/// word, and the query for a chart is its template with a known period in the
/// place of the one placeholder.
pub proof fn lemma_planned_queries_run(
    c: Config,
    name: Seq<char>,
    given: Option<Seq<char>>,
    plan: GraphPlan<'_>,
)
    requires
        c.fault() is None,
        plans_graph(c, name, given, plan),
    ensures
        plan matches GraphPlan::Run { graph, period, cmd } ==> cmd@.len() > 0 && known_period(
            period@,
        ) && control::one_word_filled(graph.query@, "{period}"@, period@, text::texts(cmd@)),
        c.health matches Some(h) ==> h.command@.len() > 0,
{
    crate::validate::lemma_valid_graphs(c);
    lemma_find_graph(c.graphs@, name);
    if let GraphPlan::Run { graph, period, cmd } = plan {
        let i = choose|i: int| 0 <= i < c.graphs@.len() && c.graphs@[i] == *graph;
        assert(c.graphs@[i].query@.len() > 0);
        assert(text::texts(cmd@).len() == cmd@.len());
        control::lemma_filled_once(graph.query@, "{period}"@, period@);
    }
}

} // verus!
