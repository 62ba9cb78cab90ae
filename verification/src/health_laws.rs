//! What a report on health says of the rows it was read from.

use vstd::prelude::*;

use crate::health;
use crate::health::ItemModel;
use crate::json::JsonView;
use crate::json_laws;
use crate::listing;

verus! {

/// One of the four levels.
pub open spec fn is_level(level: Seq<char>) -> bool {
    level == "ok"@ || level == "warn"@ || level == "stale"@ || level == "crit"@
}

/// The row names a metric and gives it one of the levels.
pub open spec fn reports(row: JsonView) -> bool {
    &&& json_laws::string_at(row, "metric"@) is Some
    &&& json_laws::string_at(row, "level"@) matches Some(level) && is_level(level)
}

/// The metric is what the row says.
pub open spec fn tells_item(
    row: JsonView,
    labels: Map<Seq<char>, Seq<char>>,
    item: ItemModel,
) -> bool {
    &&& json_laws::string_at(row, "metric"@) matches Some(metric) && item.label == (
    if labels.contains_key(metric) {
        labels[metric]
    } else {
        metric
    })
    &&& json_laws::string_at(row, "level"@) == Some(item.level)
    &&& item.ts == json_laws::string_at(row, "ts"@)
    &&& item.value == match row.field("value"@) {
        Some(JsonView::Number(n)) => Some(n.double),
        _ => None,
    }
}

/// The metrics of a report are the rows with a name and a known level, in their
/// order, each as its row says.
pub proof fn lemma_items_are_the_rows(
    rows: Seq<JsonView>,
    labels: Map<Seq<char>, Seq<char>>,
) -> (places: Seq<int>)
    ensures
        ({
            let items = health::report(rows, labels).items;
            &&& listing::are_places(places, rows.len(), |i: int| reports(rows[i]))
            &&& items.len() == places.len()
            &&& forall|k: int|
                0 <= k < items.len() ==> tells_item(rows[places[k]], labels, #[trigger] items[k])
        }),
{
    let rule = |row: JsonView| health::row_item(row, labels);
    let items = health::report(rows, labels).items;
    let places = listing::lemma_places(rows, rule);
    let kept = |i: int| rule(rows[i]) is Some;
    let wanted = |i: int| reports(rows[i]);
    assert forall|i: int| #[trigger] kept(i) == wanted(i) by {}
    assert forall|i: int| 0 <= i < rows.len() && #[trigger] wanted(i) implies places.contains(
        i,
    ) by {
        assert(kept(i));
    }
    assert forall|k: int| 0 <= k < places.len() implies wanted(#[trigger] places[k]) by {
        assert(kept(places[k]));
    }
    assert forall|k: int| 0 <= k < items.len() implies tells_item(
        rows[places[k]],
        labels,
        #[trigger] items[k],
    ) by {
        assert(rule(rows[places[k]]) == Some(items[k]));
    }
    places
}

/// One of the metrics has that level.
pub open spec fn has_level(items: Seq<ItemModel>, level: Seq<char>) -> bool {
    exists|i: int| 0 <= i < items.len() && (#[trigger] items[i]).level == level
}

/// A report is critical where a metric is, else stale where a metric is or
/// where there is none, else a warning where a metric is one, else well.
pub proof fn lemma_worst_of_the_metrics(
    rows: Seq<JsonView>,
    labels: Map<Seq<char>, Seq<char>>,
)
    ensures
        ({
            let r = health::report(rows, labels);
            &&& has_level(r.items, "crit"@) ==> r.worst == "crit"@
            &&& !has_level(r.items, "crit"@) && (r.items.len() == 0 || has_level(
                r.items,
                "stale"@,
            )) ==> r.worst == "stale"@
            &&& r.items.len() > 0 && !has_level(r.items, "crit"@) && !has_level(
                r.items,
                "stale"@,
            ) && has_level(r.items, "warn"@) ==> r.worst == "warn"@
            &&& r.items.len() > 0 && !has_level(r.items, "crit"@) && !has_level(
                r.items,
                "stale"@,
            ) && !has_level(r.items, "warn"@) ==> r.worst == "ok"@
        }),
{
    reveal_strlit("ok");
    reveal_strlit("warn");
    reveal_strlit("stale");
    reveal_strlit("crit");
    assert("ok"@[0] == 'o' && "warn"@[0] == 'w' && "stale"@[0] == 's' && "crit"@[0] == 'c');
    let r = health::report(rows, labels);
    health::lemma_worst_level(rows, labels);
    if r.items.len() > 0 {
        let i = choose|i: int| 0 <= i < r.items.len() && (#[trigger] r.items[i]).level == r.worst;
        assert(has_level(r.items, r.worst));
    }
    if has_level(r.items, "crit"@) {
        let i = choose|i: int| 0 <= i < r.items.len() && (#[trigger] r.items[i]).level == "crit"@;
        assert(health::rank(r.items[i].level)->0 <= health::rank(r.worst)->0);
    }
    if has_level(r.items, "stale"@) {
        let i = choose|i: int| 0 <= i < r.items.len() && (#[trigger] r.items[i]).level == "stale"@;
        assert(health::rank(r.items[i].level)->0 <= health::rank(r.worst)->0);
    }
    if has_level(r.items, "warn"@) {
        let i = choose|i: int| 0 <= i < r.items.len() && (#[trigger] r.items[i]).level == "warn"@;
        assert(health::rank(r.items[i].level)->0 <= health::rank(r.worst)->0);
    }
}

} // verus!
