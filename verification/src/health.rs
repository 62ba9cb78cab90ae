//! The report on the health of a machine, read from rows.

use vstd::prelude::*;

use crate::dict;
use crate::dict::Dict;
use crate::json;
use crate::json::{Json, JsonView, Double};
use crate::text;

verus! {

/// One metric. A metric that is no longer collected has no value and no time.
#[derive(Debug)]
pub struct HealthItem {
    pub label: String,
    pub value: Option<Double>,
    pub ts: Option<String>,
    pub level: String,
}

/// The metrics, with the worst of their levels.
#[derive(Debug)]
pub struct HealthReport {
    pub worst: String,
    pub items: Vec<HealthItem>,
}

/// What a metric says.
pub struct ItemModel {
    pub label: Seq<char>,
    pub value: Option<Double>,
    pub ts: Option<Seq<char>>,
    pub level: Seq<char>,
}

/// What a report says.
pub struct ReportModel {
    pub worst: Seq<char>,
    pub items: Seq<ItemModel>,
}

impl View for HealthItem {
    type V = ItemModel;

    open spec fn view(&self) -> ItemModel {
        ItemModel {
            label: self.label@,
            value: self.value,
            ts: text::held(self.ts),
            level: self.level@,
        }
    }
}

/// What a list of metrics says.
pub open spec fn item_models(items: Seq<HealthItem>) -> Seq<ItemModel> {
    Seq::new(items.len(), |i: int| items[i]@)
}

impl View for HealthReport {
    type V = ReportModel;

    open spec fn view(&self) -> ReportModel {
        ReportModel { worst: self.worst@, items: item_models(self.items@) }
    }
}

/// How bad a level is. A metric that is no longer collected is worse than a
/// warning: not to know is itself a thing to notice.
pub open spec fn rank(level: Seq<char>) -> Option<nat> {
    if level == "ok"@ {
        Some(0)
    } else if level == "warn"@ {
        Some(1)
    } else if level == "stale"@ {
        Some(2)
    } else if level == "crit"@ {
        Some(3)
    } else {
        None
    }
}

/// The level of that rank.
pub open spec fn level_name(rank: nat) -> Seq<char> {
    if rank == 0 {
        "ok"@
    } else if rank == 1 {
        "warn"@
    } else if rank == 2 {
        "stale"@
    } else {
        "crit"@
    }
}

/// The metric that a row holds; a row without a name or with an unknown level
/// holds none.
pub open spec fn row_item(row: JsonView, labels: Map<Seq<char>, Seq<char>>) -> Option<ItemModel> {
    match (row.text_at("metric"@), row.text_at("level"@)) {
        (Some(metric), Some(level)) => if rank(level) is Some {
            Some(
                ItemModel {
                    label: dict::shown(labels, metric),
                    value: row.double_at("value"@),
                    ts: row.text_at("ts"@),
                    level,
                },
            )
        } else {
            None
        },
        _ => None,
    }
}

/// The metrics that rows hold.
pub open spec fn row_items(rows: Seq<JsonView>, labels: Map<Seq<char>, Seq<char>>) -> Seq<
    ItemModel,
> {
    rows.filter_map(|row: JsonView| row_item(row, labels))
}

/// The highest rank among metrics, zero without any.
pub open spec fn worst_rank(items: Seq<ItemModel>) -> nat
    decreases items.len(),
{
    if items.len() == 0 {
        0
    } else {
        let before = worst_rank(items.drop_last());
        match rank(items.last().level) {
            Some(r) => if r > before {
                r
            } else {
                before
            },
            None => before,
        }
    }
}

/// The worst level among metrics. Without any metric nothing is known, which
/// is not the same as well.
pub open spec fn worst_level(items: Seq<ItemModel>) -> Seq<char> {
    if items.len() == 0 {
        "stale"@
    } else {
        level_name(worst_rank(items))
    }
}

/// The report that rows hold.
pub open spec fn report(rows: Seq<JsonView>, labels: Map<Seq<char>, Seq<char>>) -> ReportModel {
    let items = row_items(rows, labels);
    ReportModel { worst: worst_level(items), items }
}

fn level_rank(level: &str) -> (r: Option<u8>)
    ensures
        match r {
            Some(n) => rank(level@) == Some(n as nat) && n <= 3,
            None => rank(level@) is None,
        },
{
    if text::same(level, "ok") {
        Some(0)
    } else if text::same(level, "warn") {
        Some(1)
    } else if text::same(level, "stale") {
        Some(2)
    } else if text::same(level, "crit") {
        Some(3)
    } else {
        None
    }
}

fn name_of_rank(rank: u8) -> (r: &'static str)
    ensures
        r@ == level_name(rank as nat),
{
    match rank {
        0 => "ok",
        1 => "warn",
        2 => "stale",
        _ => "crit",
    }
}

fn read_item(row: &Json, labels: Option<&Dict<String>>) -> (r: Option<(HealthItem, u8)>)
    ensures
        match r {
            Some((item, n)) => row_item(row@, dict::display_names(labels)) == Some(item@) && rank(
                item@.level,
            ) == Some(n as nat) && n <= 3,
            None => row_item(row@, dict::display_names(labels)) is None,
        },
{
    let metric = match row.str_at("metric") {
        Some(m) => m,
        None => return None,
    };
    let level = match row.str_at("level") {
        Some(l) => l,
        None => return None,
    };
    let n = match level_rank(level) {
        Some(n) => n,
        None => return None,
    };
    let item = HealthItem {
        label: dict::display_name(labels, metric).to_owned(),
        value: row.f64_at("value"),
        ts: match row.str_at("ts") {
            Some(t) => Some(t.to_owned()),
            None => None,
        },
        level: level.to_owned(),
    };
    Some((item, n))
}

/// The report that rows hold: the metrics with a known level, and the worst of
/// these levels, `stale` without any metric.
pub fn normalize_health_rows(rows: &[Json], labels: Option<&Dict<String>>) -> (r: HealthReport)
    ensures
        r@ == report(json::views(rows@), dict::display_names(labels)),
{
    let ghost all = json::views(rows@);
    let ghost names = dict::display_names(labels);
    let ghost rule = |row: JsonView| row_item(row, names);
    let mut items: Vec<HealthItem> = Vec::new();
    let mut worst: u8 = 0;
    let mut i: usize = 0;
    assert(all.take(0).filter_map(rule) =~= Seq::<ItemModel>::empty());
    assert(item_models(items@) =~= Seq::<ItemModel>::empty());
    while i < rows.len()
        invariant
            i <= rows.len(),
            all == json::views(rows@),
            names == dict::display_names(labels),
            rule == (|row: JsonView| row_item(row, names)),
            item_models(items@) == all.take(i as int).filter_map(rule),
            worst == worst_rank(item_models(items@)),
            worst <= 3,
        decreases rows.len() - i,
    {
        let ghost done = items@;
        proof {
            all.lemma_filter_map_take_succ(rule, i as int);
            assert(all[i as int] == rows@[i as int]@);
        }
        if let Some((item, n)) = read_item(&rows[i], labels) {
            let ghost model = item@;
            items.push(item);
            assert(item_models(items@) =~= item_models(done) + seq![model]);
            assert(item_models(items@).drop_last() =~= item_models(done));
            if n > worst {
                worst = n;
            }
        } else {
            assert(item_models(done) + Seq::<ItemModel>::empty() =~= item_models(done));
        }
        i += 1;
    }
    assert(all.take(all.len() as int) =~= all);
    let worst = if items.len() == 0 {
        "stale"
    } else {
        name_of_rank(worst)
    };
    HealthReport { worst: worst.to_owned(), items }
}

/// The levels differ from each other.
proof fn lemma_levels_differ()
    ensures
        "ok"@ != "warn"@ && "ok"@ != "stale"@ && "ok"@ != "crit"@ && "warn"@ != "stale"@
            && "warn"@ != "crit"@ && "stale"@ != "crit"@,
{
    reveal_strlit("ok");
    reveal_strlit("warn");
    reveal_strlit("stale");
    reveal_strlit("crit");
    assert("ok"@[0] == 'o' && "warn"@[0] == 'w' && "stale"@[0] == 's' && "crit"@[0] == 'c');
}

proof fn lemma_worst_rank(items: Seq<ItemModel>)
    requires
        forall|i: int| 0 <= i < items.len() ==> rank((#[trigger] items[i]).level) is Some,
    ensures
        worst_rank(items) <= 3,
        forall|i: int|
            0 <= i < items.len() ==> rank((#[trigger] items[i]).level)->0 <= worst_rank(items),
        items.len() > 0 ==> exists|i: int|
            0 <= i < items.len() && rank((#[trigger] items[i]).level) == Some(worst_rank(items)),
    decreases items.len(),
{
    if items.len() > 0 {
        let front = items.drop_last();
        assert forall|i: int| 0 <= i < front.len() implies rank(
            (#[trigger] front[i]).level,
        ) is Some by {
            assert(front[i] == items[i]);
        }
        lemma_worst_rank(front);
        let last = items.len() - 1;
        assert(rank(items[last].level) is Some);
        if rank(items[last].level)->0 <= worst_rank(front) && front.len() > 0 {
            let k = choose|k: int|
                0 <= k < front.len() && rank((#[trigger] front[k]).level) == Some(
                    worst_rank(front),
                );
            assert(rank(items[k].level) == Some(worst_rank(items)));
        } else {
            assert(rank(items[last].level) == Some(worst_rank(items)));
        }
        assert forall|i: int| 0 <= i < items.len() implies rank(
            (#[trigger] items[i]).level,
        )->0 <= worst_rank(items) by {
            if i < last {
                assert(front[i] == items[i]);
            }
        }
    }
}

/// The worst level of a report is known, is that of one of its metrics, and no
/// metric is worse; a report without metrics is stale.
pub proof fn lemma_worst_level(rows: Seq<JsonView>, labels: Map<Seq<char>, Seq<char>>)
    ensures
        ({
            let r = report(rows, labels);
            &&& rank(r.worst) is Some
            &&& r.items.len() == 0 ==> r.worst == "stale"@
            &&& r.items.len() > 0 ==> exists|i: int|
                0 <= i < r.items.len() && (#[trigger] r.items[i]).level == r.worst
            &&& forall|i: int|
                0 <= i < r.items.len() ==> rank((#[trigger] r.items[i]).level) is Some && rank(
                    r.items[i].level,
                )->0 <= rank(r.worst)->0
        }),
{
    lemma_levels_differ();
    let items = row_items(rows, labels);
    let rule = |row: JsonView| row_item(row, labels);
    assert(items == rows.filter_map(rule));
    assert forall|i: int| 0 <= i < items.len() implies rank((#[trigger] items[i]).level) is Some by {
        assert(items.contains(items[i]));
        rows.lemma_filter_map_contains(rule, items[i]);
    }
    lemma_worst_rank(items);
    if items.len() > 0 {
        let k = choose|k: int|
            0 <= k < items.len() && rank((#[trigger] items[k]).level) == Some(worst_rank(items));
        assert(items[k].level == level_name(worst_rank(items)));
    }
}

} // verus!
