//! The series of a chart, read from rows.

use vstd::prelude::*;

use crate::dict;
use crate::dict::Dict;
use crate::json;
use crate::json::{Json, JsonView, Double};
use crate::text;

verus! {

/// One series: the points that share a label, in the order of their times.
#[derive(Debug)]
pub struct GraphSeries {
    pub label: String,
    /// Time and value.
    pub points: Vec<(String, Double)>,
}

/// The series of a chart, with the number to show beside its title.
#[derive(Debug)]
pub struct GraphNormalized {
    pub series: Vec<GraphSeries>,
    pub summary: Option<Double>,
}

/// A point: its time and its value.
pub type Point = (Seq<char>, Double);

/// What a series says.
pub struct SeriesModel {
    pub label: Seq<char>,
    pub points: Seq<Point>,
}

/// What a chart says.
pub struct GraphModel {
    pub series: Seq<SeriesModel>,
    pub summary: Option<Double>,
}

/// What a list of points says.
pub open spec fn points(list: Seq<(String, Double)>) -> Seq<Point> {
    Seq::new(list.len(), |i: int| (list[i].0@, list[i].1))
}

impl View for GraphSeries {
    type V = SeriesModel;

    open spec fn view(&self) -> SeriesModel {
        SeriesModel { label: self.label@, points: points(self.points@) }
    }
}

/// What a list of series says.
pub open spec fn series_models(list: Seq<GraphSeries>) -> Seq<SeriesModel> {
    Seq::new(list.len(), |i: int| list[i]@)
}

impl View for GraphNormalized {
    type V = GraphModel;

    open spec fn view(&self) -> GraphModel {
        GraphModel { series: series_models(self.series@), summary: self.summary }
    }
}

/// The point that a row holds; a row without a time or a number holds none.
pub open spec fn row_point(row: JsonView) -> Option<Point> {
    match (row.text_at("ts"@), row.double_at("value"@)) {
        (Some(ts), Some(value)) => Some((ts, value)),
        _ => None,
    }
}

/// The row belongs to the number beside the title.
pub open spec fn row_is_summary(row: JsonView) -> bool {
    row.text_at("series"@) == Some("@summary"@)
}

/// The label of the series of a row: the display name of the series it names,
/// or of the chart where it names none.
pub open spec fn row_label(
    row: JsonView,
    default_label: Seq<char>,
    labels: Map<Seq<char>, Seq<char>>,
) -> Seq<char> {
    dict::shown(
        labels,
        match row.text_at("series"@) {
            Some(s) => s,
            None => default_label,
        },
    )
}

/// The labelled point that a row adds to the chart.
pub open spec fn row_entry(
    row: JsonView,
    default_label: Seq<char>,
    labels: Map<Seq<char>, Seq<char>>,
) -> Option<(Seq<char>, Point)> {
    if row_is_summary(row) {
        None
    } else {
        match row_point(row) {
            Some(p) => Some((row_label(row, default_label, labels), p)),
            None => None,
        }
    }
}

/// The labelled points of a list of rows.
pub open spec fn row_entries(
    rows: Seq<JsonView>,
    default_label: Seq<char>,
    labels: Map<Seq<char>, Seq<char>>,
) -> Seq<(Seq<char>, Point)> {
    rows.filter_map(|row: JsonView| row_entry(row, default_label, labels))
}

/// The labels in the order in which they first occur.
pub open spec fn first_seen(entries: Seq<(Seq<char>, Point)>) -> Seq<Seq<char>>
    decreases entries.len(),
{
    if entries.len() == 0 {
        Seq::empty()
    } else {
        let before = first_seen(entries.drop_last());
        if before.contains(entries.last().0) {
            before
        } else {
            before.push(entries.last().0)
        }
    }
}

/// The points with that label.
pub open spec fn points_of(entries: Seq<(Seq<char>, Point)>, label: Seq<char>) -> Seq<Point>
    decreases entries.len(),
{
    if entries.len() == 0 {
        Seq::empty()
    } else {
        let before = points_of(entries.drop_last(), label);
        if entries.last().0 == label {
            before.push(entries.last().1)
        } else {
            before
        }
    }
}

/// The point put into a sorted list, behind those of the same time.
pub open spec fn placed(list: Seq<Point>, p: Point) -> Seq<Point>
    decreases list.len(),
{
    if list.len() > 0 && text::before(p.0, list.last().0) {
        placed(list.drop_last(), p).push(list.last())
    } else {
        list.push(p)
    }
}

/// The points in the order of their times; those of the same time stay as they
/// were.
pub open spec fn in_order(list: Seq<Point>) -> Seq<Point>
    decreases list.len(),
{
    if list.len() == 0 {
        Seq::empty()
    } else {
        placed(in_order(list.drop_last()), list.last())
    }
}

/// The series that labelled points form.
pub open spec fn series_of(entries: Seq<(Seq<char>, Point)>) -> Seq<SeriesModel> {
    let labels = first_seen(entries);
    Seq::new(
        labels.len(),
        |i: int| SeriesModel { label: labels[i], points: in_order(points_of(entries, labels[i])) },
    )
}

/// The point of the rows for the number beside the title with the latest time,
/// the first of equals.
pub open spec fn latest_summary(rows: Seq<JsonView>) -> Option<Point>
    decreases rows.len(),
{
    if rows.len() == 0 {
        None
    } else {
        let before = latest_summary(rows.drop_last());
        if !row_is_summary(rows.last()) {
            before
        } else {
            match (row_point(rows.last()), before) {
                (Some(p), None) => Some(p),
                (Some(p), Some(q)) => if text::before(q.0, p.0) {
                    Some(p)
                } else {
                    Some(q)
                },
                (None, _) => before,
            }
        }
    }
}

/// The chart that rows hold.
pub open spec fn chart(
    rows: Seq<JsonView>,
    default_label: Seq<char>,
    labels: Map<Seq<char>, Seq<char>>,
) -> GraphModel {
    GraphModel {
        series: series_of(row_entries(rows, default_label, labels)),
        summary: match latest_summary(rows) {
            Some(p) => Some(p.1),
            None => None,
        },
    }
}

/// Puts a point into a sorted list, behind those of the same time.
fn place(list: &mut Vec<(String, Double)>, ts: String, value: Double)
    ensures
        points(final(list)@) == placed(points(old(list)@), (ts@, value)),
{
    let ghost all = points(list@);
    let ghost p: Point = (ts@, value);
    let mut i: usize = list.len();
    assert(all.take(i as int) =~= all);
    assert(all.skip(i as int) =~= Seq::<Point>::empty());
    assert(placed(all, p) =~= placed(all.take(i as int), p) + all.skip(i as int));
    while i > 0 && text::precedes(ts.as_str(), list[i - 1].0.as_str())
        invariant
            i <= list.len(),
            all == points(list@),
            p == (ts@, value),
            placed(all, p) == placed(all.take(i as int), p) + all.skip(i as int),
        decreases i,
    {
        proof {
            let front = all.take(i as int);
            assert(front.last() == all[i - 1]);
            assert(front.drop_last() =~= all.take(i - 1));
            assert(placed(front, p) == placed(all.take(i - 1), p).push(all[i - 1]));
            assert(placed(all.take(i - 1), p).push(all[i - 1]) + all.skip(i as int) =~= placed(
                all.take(i - 1),
                p,
            ) + all.skip(i - 1));
        }
        i -= 1;
    }
    proof {
        let front = all.take(i as int);
        if i > 0 {
            assert(front.last() == all[i - 1]);
        }
        assert(placed(front, p) == front.push(p));
        assert(front.push(p) + all.skip(i as int) =~= all.insert(i as int, p));
    }
    list.insert(i, (ts, value));
    assert(points(list@) =~= all.insert(i as int, p));
}

/// The labels seen so far are those of the series.
proof fn lemma_labels_of_series(entries: Seq<(Seq<char>, Point)>)
    ensures
        series_of(entries).len() == first_seen(entries).len(),
        forall|i: int|
            0 <= i < first_seen(entries).len() ==> (#[trigger] series_of(entries)[i]).label
                == first_seen(entries)[i],
{
}

/// No label is listed twice.
proof fn lemma_first_seen_once(entries: Seq<(Seq<char>, Point)>)
    ensures
        first_seen(entries).no_duplicates(),
    decreases entries.len(),
{
    if entries.len() > 0 {
        lemma_first_seen_once(entries.drop_last());
        let before = first_seen(entries.drop_last());
        if !before.contains(entries.last().0) {
            let all = before.push(entries.last().0);
            assert forall|a: int, b: int|
                0 <= a < all.len() && 0 <= b < all.len() && a != b implies #[trigger] all[a]
                != #[trigger] all[b] by {
                if a < before.len() && b < before.len() {
                    assert(before[a] != before[b]);
                } else if a < before.len() {
                    assert(before.contains(before[a]));
                } else {
                    assert(before.contains(before[b]));
                }
            }
        }
    }
}

/// A label that was not seen has no points.
proof fn lemma_unseen_has_no_points(entries: Seq<(Seq<char>, Point)>, label: Seq<char>)
    requires
        !first_seen(entries).contains(label),
    ensures
        points_of(entries, label) == Seq::<Point>::empty(),
    decreases entries.len(),
{
    if entries.len() > 0 {
        let before = first_seen(entries.drop_last());
        let last = entries.last().0;
        if before.contains(last) {
            assert(first_seen(entries) == before);
        } else {
            assert(first_seen(entries) == before.push(last));
            assert(before.push(last)[before.len() as int] == last);
            if before.contains(label) {
                let i = choose|i: int| 0 <= i < before.len() && before[i] == label;
                assert(before.push(last)[i] == label);
            }
        }
        lemma_unseen_has_no_points(entries.drop_last(), label);
    }
}

/// Adds a labelled point to its series, a new one at the end where there is
/// none with that label.
fn add_entry(
    series: &mut Vec<GraphSeries>,
    Ghost(entries): Ghost<Seq<(Seq<char>, Point)>>,
    label: &str,
    ts: String,
    value: Double,
)
    requires
        series_models(old(series)@) == series_of(entries),
    ensures
        series_models(final(series)@) == series_of(entries.push((label@, (ts@, value)))),
{
    let ghost p: Point = (ts@, value);
    let ghost grown = entries.push((label@, p));
    let ghost before = series@;
    let ghost seen = first_seen(entries);
    proof {
        assert(grown.drop_last() =~= entries);
        lemma_labels_of_series(entries);
        lemma_first_seen_once(entries);
    }
    let mut i: usize = 0;
    while i < series.len()
        invariant
            i <= series.len(),
            series@ == before,
            series_models(before) == series_of(entries),
            seen == first_seen(entries),
            seen.no_duplicates(),
            p == (ts@, value),
            grown == entries.push((label@, p)),
            grown.drop_last() == entries,
            series_of(entries).len() == seen.len(),
            forall|j: int| 0 <= j < seen.len() ==> (#[trigger] series_of(entries)[j]).label == seen[j],
            forall|j: int| 0 <= j < i ==> seen[j] != label@,
        decreases series.len() - i,
    {
        assert(series_models(before)[i as int] == before[i as int]@);
        assert(seen[i as int] == series@[i as int].label@);
        if text::same(series[i].label.as_str(), label) {
            place(&mut series[i].points, ts, value);
            proof {
                assert(seen.contains(label@));
                assert(first_seen(grown) == seen);
                assert(series_models(series@) =~= series_of(grown)) by {
                    assert forall|j: int| 0 <= j < seen.len() implies (#[trigger] series_models(
                        series@,
                    )[j]) == series_of(grown)[j] by {
                        assert(series_models(before)[j] == series_of(entries)[j]);
                        if j == i {
                            let own = points_of(entries, label@);
                            assert(own.push(p).drop_last() =~= own);
                            assert(series_of(entries)[j].points == in_order(own));
                            assert(series@[j].label@ == label@);
                        } else {
                            assert(seen[j] != seen[i as int]);
                            assert(series@[j] == before[j]);
                        }
                    }
                }
            }
            return;
        }
        i += 1;
    }
    let mut list: Vec<(String, Double)> = Vec::new();
    list.push((ts, value));
    series.push(GraphSeries { label: label.to_owned(), points: list });
    proof {
        assert(!seen.contains(label@));
        assert(first_seen(grown) == seen.push(label@));
        lemma_unseen_has_no_points(entries, label@);
        assert(points_of(grown, label@) =~= seq![p]);
        assert(in_order(seq![p]) =~= seq![p]) by {
            reveal_with_fuel(in_order, 2);
            assert(seq![p].drop_last() =~= Seq::<Point>::empty());
        }
        assert(points(series@.last().points@) =~= seq![p]);
        assert(series_models(series@) =~= series_of(grown)) by {
            assert forall|j: int| 0 <= j <= seen.len() implies (#[trigger] series_models(
                series@,
            )[j]) == series_of(grown)[j] by {
                if j < seen.len() {
                    assert(series_models(before)[j] == series_of(entries)[j]);
                    assert(series@[j] == before[j]);
                    assert(seen[j] != label@);
                }
            }
        }
    }
}

/// The chart that rows hold. A row without a time or a number is left out;
/// rows of the series `@summary` give the number beside the title, from the one
/// with the latest time; the others form series, in the order in which their
/// labels first occur.
pub fn normalize_graph_rows(
    rows: &[Json],
    default_label: &str,
    series_labels: Option<&Dict<String>>,
) -> (r: GraphNormalized)
    ensures
        r@ == chart(json::views(rows@), default_label@, dict::display_names(series_labels)),
{
    let ghost all = json::views(rows@);
    let ghost names = dict::display_names(series_labels);
    let ghost rule = |row: JsonView| row_entry(row, default_label@, names);
    let mut series: Vec<GraphSeries> = Vec::new();
    let mut summary: Option<(&str, Double)> = None;
    let mut i: usize = 0;
    proof {
        assert(all.take(0).filter_map(rule) =~= Seq::<(Seq<char>, Point)>::empty());
        assert(series_models(series@) =~= series_of(all.take(0).filter_map(rule)));
    }
    while i < rows.len()
        invariant
            i <= rows.len(),
            all == json::views(rows@),
            names == dict::display_names(series_labels),
            rule == (|row: JsonView| row_entry(row, default_label@, names)),
            series_models(series@) == series_of(all.take(i as int).filter_map(rule)),
            latest_summary(all.take(i as int)) == match summary {
                Some(s) => Some((s.0@, s.1)),
                None => None,
            },
        decreases rows.len() - i,
    {
        let row = &rows[i];
        let ghost entries = all.take(i as int).filter_map(rule);
        proof {
            all.lemma_filter_map_take_succ(rule, i as int);
            assert(all.take(i + 1).drop_last() =~= all.take(i as int));
            assert(all[i as int] == row@);
        }
        let field = row.str_at("series");
        let is_summary = match field {
            Some(s) => text::same(s, "@summary"),
            None => false,
        };
        if let (Some(ts), Some(value)) = (row.str_at("ts"), row.f64_at("value")) {
            if is_summary {
                assert(entries + Seq::<(Seq<char>, Point)>::empty() =~= entries);
                summary = match summary {
                    Some(s) => if text::precedes(s.0, ts) {
                        Some((ts, value))
                    } else {
                        Some(s)
                    },
                    None => Some((ts, value)),
                };
            } else {
                let raw = match field {
                    Some(s) => s,
                    None => default_label,
                };
                let label = dict::display_name(series_labels, raw);
                let ghost entry = (label@, (ts@, value));
                assert(entries + seq![entry] =~= entries.push(entry));
                add_entry(&mut series, Ghost(entries), label, ts.to_owned(), value);
            }
        } else {
            assert(entries + Seq::<(Seq<char>, Point)>::empty() =~= entries);
        }
        i += 1;
    }
    assert(all.take(all.len() as int) =~= all);
    GraphNormalized {
        series,
        summary: match summary {
            Some(s) => Some(s.1),
            None => None,
        },
    }
}

/// Being a point of that time.
pub open spec fn has_time(ts: Seq<char>) -> spec_fn(Point) -> bool {
    |q: Point| q.0 == ts
}

/// The points of that time.
pub open spec fn at_time(list: Seq<Point>, ts: Seq<char>) -> Seq<Point> {
    list.filter(has_time(ts))
}

/// No point comes before an earlier one of the list.
pub open spec fn ascending(list: Seq<Point>) -> bool {
    forall|i: int, j: int|
        0 <= i < j < list.len() ==> !text::before((#[trigger] list[j]).0, (#[trigger] list[i]).0)
}

/// Where a point is put into a list.
spec fn slot(list: Seq<Point>, p: Point) -> int
    decreases list.len(),
{
    if list.len() > 0 && text::before(p.0, list.last().0) {
        slot(list.drop_last(), p)
    } else {
        list.len() as int
    }
}

proof fn lemma_slot(list: Seq<Point>, p: Point)
    ensures
        0 <= slot(list, p) <= list.len(),
        placed(list, p) == list.insert(slot(list, p), p),
        slot(list, p) > 0 ==> !text::before(p.0, list[slot(list, p) - 1].0),
        forall|i: int|
            slot(list, p) <= i < list.len() ==> text::before(p.0, (#[trigger] list[i]).0),
    decreases list.len(),
{
    let k = slot(list, p);
    if list.len() > 0 && text::before(p.0, list.last().0) {
        let front = list.drop_last();
        lemma_slot(front, p);
        assert(front.insert(k, p).push(list.last()) =~= list.insert(k, p));
        assert forall|i: int| k <= i < list.len() implies text::before(
            p.0,
            (#[trigger] list[i]).0,
        ) by {
            if i < front.len() {
                assert(front[i] == list[i]);
            }
        }
    } else {
        assert(list.push(p) =~= list.insert(k, p));
    }
}

proof fn lemma_placed_ascending(list: Seq<Point>, p: Point)
    requires
        ascending(list),
    ensures
        ascending(placed(list, p)),
{
    lemma_slot(list, p);
    let k = slot(list, p);
    let all = list.insert(k, p);
    assert forall|i: int, j: int| 0 <= i < j < all.len() implies !text::before(
        (#[trigger] all[j]).0,
        (#[trigger] all[i]).0,
    ) by {
        if i < k && j > k {
            assert(all[i] == list[i] && all[j] == list[j - 1]);
        } else if j < k {
            assert(all[i] == list[i] && all[j] == list[j]);
        } else if i > k {
            assert(all[i] == list[i - 1] && all[j] == list[j - 1]);
        } else if i == k {
            assert(all[j] == list[j - 1]);
            text::lemma_before_total(p.0, list[j - 1].0);
        } else {
            assert(all[i] == list[i]);
            let q = list[k - 1];
            if text::before(p.0, list[i].0) {
                if i < k - 1 {
                    assert(!text::before(q.0, list[i].0));
                    text::lemma_before_total(list[i].0, q.0);
                    if list[i].0 != q.0 {
                        text::lemma_before_transitive(p.0, list[i].0, q.0);
                    }
                }
            }
        }
    }
}

proof fn lemma_placed_multiset(list: Seq<Point>, p: Point)
    ensures
        placed(list, p).to_multiset() == list.to_multiset().insert(p),
{
    lemma_slot(list, p);
    vstd::seq_lib::to_multiset_insert(list, slot(list, p), p);
}

proof fn lemma_placed_stable(list: Seq<Point>, p: Point, ts: Seq<char>)
    ensures
        at_time(placed(list, p), ts) == at_time(list.push(p), ts),
{
    let pred = has_time(ts);
    lemma_slot(list, p);
    let k = slot(list, p);
    let front = list.take(k);
    let back = list.skip(k);
    assert(list =~= front + back);
    assert(list.insert(k, p) =~= front.push(p) + back);
    Seq::filter_distributes_over_add(front, back, pred);
    Seq::filter_distributes_over_add(front.push(p), back, pred);
    front.lemma_filter_push(p, pred);
    list.lemma_filter_push(p, pred);
    if p.0 == ts {
        assert forall|i: int| 0 <= i < back.len() implies !pred(#[trigger] back[i]) by {
            assert(back[i] == list[k + i]);
            text::lemma_before_total(p.0, list[k + i].0);
        }
        back.lemma_all_neg_filter_empty(pred);
        assert(front.filter(pred).push(p) + back.filter(pred) =~= (front.filter(pred)
            + back.filter(pred)).push(p));
    }
}

/// Ordering points leaves them the same points, puts no point before an
/// earlier one, and keeps the order of points of the same time.
pub proof fn lemma_in_order(list: Seq<Point>)
    ensures
        ascending(in_order(list)),
        in_order(list).to_multiset() == list.to_multiset(),
        forall|ts: Seq<char>|
            #[trigger] at_time(in_order(list), ts) == at_time(list, ts),
    decreases list.len(),
{
    if list.len() == 0 {
        assert(in_order(list) =~= list);
    } else {
        let front = list.drop_last();
        let p = list.last();
        lemma_in_order(front);
        lemma_placed_ascending(in_order(front), p);
        lemma_placed_multiset(in_order(front), p);
        vstd::seq_lib::to_multiset_build(front, p);
        assert(list =~= front.push(p));
        assert forall|ts: Seq<char>| #[trigger] at_time(in_order(list), ts) == at_time(
            list,
            ts,
        ) by {
            let pred = has_time(ts);
            lemma_placed_stable(in_order(front), p, ts);
            in_order(front).lemma_filter_push(p, pred);
            front.lemma_filter_push(p, pred);
            assert(at_time(in_order(front), ts) == at_time(front, ts));
        }
    }
}

/// The labels of a chart are distinct, and they are the labels of the rows:
/// each label of a row has a series, and no other.
pub proof fn lemma_series_labels(entries: Seq<(Seq<char>, Point)>)
    ensures
        first_seen(entries).no_duplicates(),
        forall|label: Seq<char>|
            #[trigger] first_seen(entries).contains(label) <==> exists|i: int|
                0 <= i < entries.len() && (#[trigger] entries[i]).0 == label,
    decreases entries.len(),
{
    lemma_first_seen_once(entries);
    if entries.len() > 0 {
        let front = entries.drop_last();
        let last = entries.last().0;
        lemma_series_labels(front);
        assert forall|label: Seq<char>| #[trigger] first_seen(entries).contains(label) <==> exists|
            i: int,
        |
            0 <= i < entries.len() && (#[trigger] entries[i]).0 == label by {
            let before = first_seen(front);
            if first_seen(entries).contains(label) {
                if label == last {
                    assert(entries[entries.len() - 1].0 == label);
                } else {
                    let k = choose|k: int|
                        0 <= k < first_seen(entries).len() && first_seen(entries)[k] == label;
                    assert(before[k] == label);
                    assert(before.contains(label));
                    let i = choose|i: int| 0 <= i < front.len() && (#[trigger] front[i]).0 == label;
                    assert(entries[i].0 == label);
                }
            }
            if exists|i: int| 0 <= i < entries.len() && (#[trigger] entries[i]).0 == label {
                let i = choose|i: int|
                    0 <= i < entries.len() && (#[trigger] entries[i]).0 == label;
                if i < front.len() {
                    assert(front[i].0 == label);
                    assert(before.contains(label));
                    let k = choose|k: int| 0 <= k < before.len() && before[k] == label;
                    assert(first_seen(entries)[k] == label);
                } else if !before.contains(last) {
                    assert(first_seen(entries)[before.len() as int] == label);
                }
            }
        }
    }
}

/// No row for the number beside the title has a later time than the one it is
/// taken from, and it is taken from such a row.
pub proof fn lemma_latest_summary(rows: Seq<JsonView>)
    ensures
        match latest_summary(rows) {
            Some(p) => {
                &&& exists|i: int|
                    0 <= i < rows.len() && row_is_summary(#[trigger] rows[i]) && row_point(rows[i])
                        == Some(p)
                &&& forall|i: int|
                    0 <= i < rows.len() && row_is_summary(#[trigger] rows[i]) ==> (row_point(
                        rows[i],
                    ) matches Some(q) ==> !text::before(p.0, q.0))
            },
            None => forall|i: int|
                0 <= i < rows.len() && row_is_summary(#[trigger] rows[i]) ==> row_point(
                    rows[i],
                ) is None,
        },
    decreases rows.len(),
{
    if rows.len() > 0 {
        let front = rows.drop_last();
        lemma_latest_summary(front);
        let last = rows.len() - 1;
        assert forall|i: int| 0 <= i < front.len() implies front[i] == #[trigger] rows[i] by {}
        if let Some(p) = latest_summary(front) {
            let i = choose|i: int|
                0 <= i < front.len() && row_is_summary(#[trigger] front[i]) && row_point(front[i])
                    == Some(p);
            assert(row_is_summary(rows[i]) && row_point(rows[i]) == Some(p));
            text::lemma_before_total(p.0, p.0);
            if let Some(q) = row_point(rows[last]) {
                if row_is_summary(rows[last]) && text::before(p.0, q.0) {
                    text::lemma_before_total(q.0, q.0);
                    assert forall|j: int| 0 <= j < rows.len() && row_is_summary(
                        #[trigger] rows[j],
                    ) implies (row_point(rows[j]) matches Some(o) ==> !text::before(q.0, o.0)) by {
                        if let Some(o) = row_point(rows[j]) {
                            if j < last && text::before(q.0, o.0) {
                                assert(front[j] == rows[j]);
                                text::lemma_before_transitive(p.0, q.0, o.0);
                            }
                        }
                    }
                }
            }
        } else {
            assert(rows[last] == rows.last());
            if let Some(q) = row_point(rows[last]) {
                text::lemma_before_total(q.0, q.0);
            }
        }
    }
}

/// The points with a label are those of the rows with that label.
proof fn lemma_points_of(entries: Seq<(Seq<char>, Point)>, label: Seq<char>)
    ensures
        forall|p: Point|
            #[trigger] points_of(entries, label).contains(p) <==> exists|i: int|
                0 <= i < entries.len() && #[trigger] entries[i] == (label, p),
    decreases entries.len(),
{
    if entries.len() > 0 {
        let front = entries.drop_last();
        let before = points_of(front, label);
        let all = points_of(entries, label);
        lemma_points_of(front, label);
        assert forall|p: Point| #[trigger] all.contains(p) <==> exists|i: int|
            0 <= i < entries.len() && #[trigger] entries[i] == (label, p) by {
            if all.contains(p) {
                let k = choose|k: int| 0 <= k < all.len() && all[k] == p;
                if k < before.len() {
                    assert(before[k] == p);
                    assert(before.contains(p));
                    let i = choose|i: int| 0 <= i < front.len() && #[trigger] front[i] == (label, p);
                    assert(entries[i] == (label, p));
                } else {
                    assert(entries[entries.len() - 1] == (label, p));
                }
            }
            if exists|i: int| 0 <= i < entries.len() && #[trigger] entries[i] == (label, p) {
                let i = choose|i: int|
                    0 <= i < entries.len() && #[trigger] entries[i] == (label, p);
                if i < front.len() {
                    assert(front[i] == (label, p));
                    assert(before.contains(p));
                    let k = choose|k: int| 0 <= k < before.len() && before[k] == p;
                    assert(all[k] == p);
                } else {
                    assert(all[before.len() as int] == p);
                }
            }
        }
    }
}

/// A chart shows every point of its rows in the series of its label, and
/// nothing else: a series holds exactly the points of the rows with its label,
/// in the order of their times.
pub proof fn lemma_series(entries: Seq<(Seq<char>, Point)>, i: int)
    requires
        0 <= i < series_of(entries).len(),
    ensures
        ({
            let s = series_of(entries)[i];
            &&& ascending(s.points)
            &&& s.points.to_multiset() == points_of(entries, s.label).to_multiset()
            &&& s.points.len() > 0
            &&& forall|p: Point|
                #[trigger] s.points.contains(p) <==> exists|k: int|
                    0 <= k < entries.len() && #[trigger] entries[k] == (s.label, p)
        }),
{
    let s = series_of(entries)[i];
    let own = points_of(entries, s.label);
    lemma_in_order(own);
    lemma_points_of(entries, s.label);
    lemma_series_labels(entries);
    assert(first_seen(entries).contains(s.label)) by {
        assert(first_seen(entries)[i] == s.label);
    }
    let k = choose|k: int| 0 <= k < entries.len() && (#[trigger] entries[k]).0 == s.label;
    assert(entries[k] == (s.label, entries[k].1));
    assert(own.contains(entries[k].1));
    broadcast use vstd::seq_lib::group_to_multiset_ensures;

    assert forall|p: Point| #[trigger] s.points.contains(p) == own.contains(p) by {
        assert(s.points.to_multiset().count(p) == own.to_multiset().count(p));
    }
    assert(s.points.contains(entries[k].1));
}

} // verus!
