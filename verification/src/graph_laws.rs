//! What a chart shows, said of the rows it was read from.

use vstd::prelude::*;

use crate::graph;
use crate::graph::Point;
use crate::json::{Double, JsonView};
use crate::json_laws;
use crate::listing;
use crate::text;

verus! {

/// The row holds that point: its time as a string and its value as a number.
pub open spec fn tells_point(row: JsonView, p: Point) -> bool {
    row.field("ts"@) == Some(JsonView::Text(p.0)) && (row.field("value"@) matches Some(
        JsonView::Number(n),
    ) && n.double == p.1)
}

/// The row has a string for its time and a number for its value.
pub open spec fn has_point(row: JsonView) -> bool {
    row.field("ts"@) matches Some(JsonView::Text(_)) && row.field("value"@) matches Some(
        JsonView::Number(_),
    )
}

/// The row is for the number beside the title.
pub open spec fn for_title(row: JsonView) -> bool {
    row.field("series"@) == Some(JsonView::Text("@summary"@))
}

/// The row is a point of a series.
pub open spec fn charted(row: JsonView) -> bool {
    has_point(row) && !for_title(row)
}

/// The label of the series of a row.
pub open spec fn label_of(
    row: JsonView,
    default_label: Seq<char>,
    labels: Map<Seq<char>, Seq<char>>,
) -> Seq<char> {
    let name = match json_laws::string_at(row, "series"@) {
        Some(s) => s,
        None => default_label,
    };
    if labels.contains_key(name) {
        labels[name]
    } else {
        name
    }
}

proof fn lemma_row(row: JsonView, default_label: Seq<char>, labels: Map<Seq<char>, Seq<char>>)
    ensures
        graph::row_point(row) is Some <==> has_point(row),
        graph::row_point(row) matches Some(p) ==> tells_point(row, p),
        graph::row_is_summary(row) == for_title(row),
        graph::row_entry(row, default_label, labels) is Some <==> charted(row),
        graph::row_entry(row, default_label, labels) matches Some(e) ==> e.0 == label_of(
            row,
            default_label,
            labels,
        ) && tells_point(row, e.1),
{
}

proof fn lemma_slot(list: Seq<Point>, p: Point) -> (k: int)
    ensures
        0 <= k <= list.len(),
        graph::placed(list, p) == list.insert(k, p),
        k > 0 ==> !text::before(p.0, list[k - 1].0),
        forall|i: int| k <= i < list.len() ==> text::before(p.0, (#[trigger] list[i]).0),
    decreases list.len(),
{
    if list.len() > 0 && text::before(p.0, list.last().0) {
        let front = list.drop_last();
        let k = lemma_slot(front, p);
        assert(front.insert(k, p).push(list.last()) =~= list.insert(k, p));
        assert forall|i: int| k <= i < list.len() implies text::before(
            p.0,
            (#[trigger] list[i]).0,
        ) by {
            if i < front.len() {
                assert(front[i] == list[i]);
            }
        }
        k
    } else {
        assert(list.push(p) =~= list.insert(list.len() as int, p));
        list.len() as int
    }
}

/// No point is before an earlier one, and points of the same time come from
/// rising places.
pub open spec fn by_time(points: Seq<Point>, from: Seq<int>) -> bool {
    forall|k: int, l: int|
        #![trigger points[k], points[l]]
        0 <= k < l < points.len() ==> !text::before(points[l].0, points[k].0) && (points[k].0
            == points[l].0 ==> from[k] < from[l])
}

/// Ordering points by their times loses none, adds none, and leaves those of
/// the same time as they were: each point of the result is one of the list,
/// from a place of its own.
pub proof fn lemma_ordering(list: Seq<Point>) -> (from: Seq<int>)
    ensures
        from.len() == list.len(),
        graph::in_order(list).len() == list.len(),
        from.no_duplicates(),
        forall|i: int| #[trigger] from.contains(i) <==> 0 <= i < list.len(),
        forall|k: int|
            0 <= k < list.len() ==> #[trigger] graph::in_order(list)[k] == list[from[k]],
        by_time(graph::in_order(list), from),
    decreases list.len(),
{
    if list.len() == 0 {
        Seq::empty()
    } else {
        let front = list.drop_last();
        let n = front.len() as int;
        let p = list.last();
        let before = lemma_ordering(front);
        let sorted = graph::in_order(front);
        let k = lemma_slot(sorted, p);
        let all = sorted.insert(k, p);
        let from = before.insert(k, n);
        assert(graph::in_order(list) == all);
        assert forall|i: int| 0 <= i < before.len() implies 0 <= #[trigger] before[i] < n by {
            assert(before.contains(before[i]));
        }
        assert forall|i: int| #[trigger] from.contains(i) <==> 0 <= i < list.len() by {
            if 0 <= i < n {
                assert(before.contains(i));
                let j = choose|j: int| 0 <= j < before.len() && before[j] == i;
                assert(from[if j < k {
                    j
                } else {
                    j + 1
                }] == i);
            }
            if i == n {
                assert(from[k] == n);
            }
        }
        assert forall|a: int, b: int| 0 <= a < from.len() && 0 <= b < from.len() && a != b implies
            #[trigger] from[a] != #[trigger] from[b] by {
            let x = if a < k {
                a
            } else {
                a - 1
            };
            let y = if b < k {
                b
            } else {
                b - 1
            };
            if a == k {
                assert(from[b] == before[y]);
            } else if b == k {
                assert(from[a] == before[x]);
            } else {
                assert(from[a] == before[x] && from[b] == before[y]);
            }
        }
        assert forall|a: int| 0 <= a < list.len() implies #[trigger] all[a] == list[from[a]] by {
            if a < k {
                assert(all[a] == sorted[a] && from[a] == before[a]);
                assert(sorted[a] == front[before[a]]);
            } else if a > k {
                assert(all[a] == sorted[a - 1] && from[a] == before[a - 1]);
                assert(sorted[a - 1] == front[before[a - 1]]);
            }
        }
        assert forall|a: int, b: int|
            #![trigger all[a], all[b]]
            0 <= a < b < all.len() implies !text::before(all[b].0, all[a].0) && (all[a].0
            == all[b].0 ==> from[a] < from[b]) by {
            if b < k {
                assert(all[a] == sorted[a] && all[b] == sorted[b]);
            } else if a > k {
                assert(all[a] == sorted[a - 1] && all[b] == sorted[b - 1]);
            } else if a < k && b > k {
                assert(all[a] == sorted[a] && all[b] == sorted[b - 1]);
            } else if a == k {
                assert(all[b] == sorted[b - 1]);
                text::lemma_before_total(p.0, sorted[b - 1].0);
            } else {
                assert(all[a] == sorted[a]);
                let q = sorted[k - 1];
                if a < k - 1 {
                    assert(!text::before(q.0, sorted[a].0));
                    text::lemma_before_total(sorted[a].0, q.0);
                    if text::before(p.0, sorted[a].0) && sorted[a].0 != q.0 {
                        text::lemma_before_transitive(p.0, sorted[a].0, q.0);
                    }
                }
                assert(from[a] == before[a]);
            }
        }
        from
    }
}

proof fn lemma_own_points(entries: Seq<(Seq<char>, Point)>, label: Seq<char>) -> (at: Seq<int>)
    ensures
        at.len() == graph::points_of(entries, label).len(),
        listing::rising(at),
        forall|i: int| #[trigger]
            at.contains(i) <==> 0 <= i < entries.len() && entries[i].0 == label,
        forall|k: int|
            0 <= k < at.len() ==> entries[#[trigger] at[k]].1 == graph::points_of(
                entries,
                label,
            )[k],
    decreases entries.len(),
{
    if entries.len() == 0 {
        Seq::empty()
    } else {
        let front = entries.drop_last();
        let n = front.len() as int;
        let before = lemma_own_points(front, label);
        let at = if entries.last().0 == label {
            before.push(n)
        } else {
            before
        };
        assert forall|i: int| 0 <= i < before.len() implies 0 <= #[trigger] before[i] < n by {
            assert(before.contains(before[i]));
        }
        assert forall|i: int| #[trigger] at.contains(i) <==> 0 <= i < entries.len()
            && entries[i].0 == label by {
            if at.contains(i) {
                let k = choose|k: int| 0 <= k < at.len() && at[k] == i;
                if k < before.len() {
                    assert(before.contains(before[k]));
                    assert(front[i] == entries[i]);
                }
            }
            if 0 <= i < n && entries[i].0 == label {
                assert(front[i] == entries[i]);
                assert(before.contains(i));
                let k = choose|k: int| 0 <= k < before.len() && before[k] == i;
                assert(at[k] == i);
            }
            if i == n && entries[i].0 == label {
                assert(at[before.len() as int] == n);
            }
        }
        assert forall|k: int| 0 <= k < at.len() implies entries[#[trigger] at[k]].1
            == graph::points_of(entries, label)[k] by {
            if k < before.len() {
                assert(at[k] == before[k]);
                assert(front[before[k]] == entries[before[k]]);
            }
        }
        at
    }
}

/// A series shows exactly the charted rows with its label, each once, in the
/// order of their times, and those of the same time in the order of the rows.
/// Every series shows a row.
pub proof fn lemma_series_are_the_rows(
    rows: Seq<JsonView>,
    default_label: Seq<char>,
    labels: Map<Seq<char>, Seq<char>>,
    i: int,
) -> (from: Seq<int>)
    requires
        0 <= i < graph::chart(rows, default_label, labels).series.len(),
    ensures
        ({
            let s = graph::chart(rows, default_label, labels).series[i];
            &&& from.len() == s.points.len()
            &&& from.len() > 0
            &&& from.no_duplicates()
            &&& forall|r: int| #[trigger]
                from.contains(r) <==> 0 <= r < rows.len() && charted(rows[r]) && label_of(
                    rows[r],
                    default_label,
                    labels,
                ) == s.label
            &&& forall|k: int|
                0 <= k < from.len() ==> tells_point(rows[#[trigger] from[k]], s.points[k])
            &&& by_time(s.points, from)
        }),
{
    let rule = |row: JsonView| graph::row_entry(row, default_label, labels);
    let entries = graph::row_entries(rows, default_label, labels);
    let places = listing::lemma_places(rows, rule);
    let kept = |r: int| rule(rows[r]) is Some;
    let s = graph::chart(rows, default_label, labels).series[i];
    let own = graph::points_of(entries, s.label);
    let at = lemma_own_points(entries, s.label);
    let order = lemma_ordering(own);
    let from = Seq::new(own.len(), |k: int| places[at[order[k]]]);
    graph::lemma_series(entries, i);
    assert(s.points == graph::in_order(own));
    assert forall|k: int| 0 <= k < own.len() implies 0 <= #[trigger] order[k] < own.len() by {
        assert(order.contains(order[k]));
    }
    assert forall|k: int| 0 <= k < at.len() implies 0 <= #[trigger] at[k] < entries.len()
        && entries[at[k]].0 == s.label by {
        assert(at.contains(at[k]));
    }
    assert forall|k: int| 0 <= k < from.len() implies ({
        let r = #[trigger] from[k];
        0 <= r < rows.len() && charted(rows[r]) && label_of(rows[r], default_label, labels)
            == s.label && tells_point(rows[r], s.points[k])
    }) by {
        let j = at[order[k]];
        assert(0 <= at[order[k]] < entries.len());
        let r = places[j];
        assert(from[k] == r);
        assert(rule(rows[places[j]]) == Some(entries[j]));
        lemma_row(rows[r], default_label, labels);
        assert(entries[at[order[k]]].1 == own[order[k]]);
        assert(graph::in_order(own)[k] == own[order[k]]);
    }
    assert forall|r: int| 0 <= r < rows.len() && charted(rows[r]) && label_of(
        rows[r],
        default_label,
        labels,
    ) == s.label implies #[trigger] from.contains(r) by {
        lemma_row(rows[r], default_label, labels);
        assert(kept(r));
        assert(places.contains(r));
        let j = choose|j: int| 0 <= j < places.len() && places[j] == r;
        assert(rule(rows[places[j]]) == Some(entries[j]));
        assert(at.contains(j));
        let m = choose|m: int| 0 <= m < at.len() && at[m] == j;
        assert(order.contains(m));
        let k = choose|k: int| 0 <= k < order.len() && order[k] == m;
        assert(from[k] == r);
    }
    assert forall|r: int| #[trigger] from.contains(r) implies 0 <= r < rows.len() && charted(
        rows[r],
    ) && label_of(rows[r], default_label, labels) == s.label by {
        let k = choose|k: int| 0 <= k < from.len() && from[k] == r;
        assert(charted(rows[from[k]]));
    }
    assert forall|a: int, b: int| 0 <= a < from.len() && 0 <= b < from.len() && a != b implies
        #[trigger] from[a] != #[trigger] from[b] by {
        let x = order[a];
        let y = order[b];
        assert(x != y);
        assert(at[x] < at[y] || at[y] < at[x]);
        let u = at[x];
        let v = at[y];
        assert(places[u] < places[v] || places[v] < places[u]);
    }
    assert forall|k: int, l: int|
        #![trigger s.points[k], s.points[l]]
        0 <= k < l < s.points.len() implies !text::before(s.points[l].0, s.points[k].0) && (
    s.points[k].0 == s.points[l].0 ==> from[k] < from[l]) by {
        if s.points[k].0 == s.points[l].0 {
            let x = order[k];
            let y = order[l];
            assert(x < y);
            assert(at[x] < at[y]);
            let u = at[x];
            let v = at[y];
            assert(places[u] < places[v]);
        }
    }
    from
}

proof fn lemma_first_seen_order(entries: Seq<(Seq<char>, Point)>) -> (at: Seq<int>)
    ensures
        at.len() == graph::first_seen(entries).len(),
        listing::rising(at),
        forall|i: int|
            0 <= i < at.len() ==> 0 <= #[trigger] at[i] < entries.len() && entries[at[i]].0
                == graph::first_seen(entries)[i] && forall|j: int|
                0 <= j < at[i] ==> (#[trigger] entries[j]).0 != graph::first_seen(entries)[i],
    decreases entries.len(),
{
    if entries.len() == 0 {
        Seq::empty()
    } else {
        let front = entries.drop_last();
        let n = front.len() as int;
        let before = lemma_first_seen_order(front);
        let seen = graph::first_seen(front);
        let last = entries.last().0;
        assert forall|j: int| 0 <= j < n implies front[j] == #[trigger] entries[j] by {}
        if seen.contains(last) {
            assert forall|i: int| 0 <= i < before.len() implies 0 <= #[trigger] before[i]
                < entries.len() && entries[before[i]].0 == seen[i] && forall|j: int|
                0 <= j < before[i] ==> (#[trigger] entries[j]).0 != seen[i] by {
                assert(front[before[i]] == entries[before[i]]);
                assert forall|j: int| 0 <= j < before[i] implies (#[trigger] entries[j]).0
                    != seen[i] by {
                    assert(front[j] == entries[j]);
                }
            }
            before
        } else {
            let at = before.push(n);
            let all = graph::first_seen(entries);
            graph::lemma_series_labels(front);
            assert forall|i: int| 0 <= i < at.len() implies 0 <= #[trigger] at[i] < entries.len()
                && entries[at[i]].0 == all[i] && forall|j: int|
                0 <= j < at[i] ==> (#[trigger] entries[j]).0 != all[i] by {
                if i < before.len() {
                    assert(at[i] == before[i]);
                    assert(front[before[i]] == entries[before[i]]);
                    assert forall|j: int| 0 <= j < at[i] implies (#[trigger] entries[j]).0
                        != all[i] by {
                        assert(front[j] == entries[j]);
                    }
                } else {
                    assert forall|j: int| 0 <= j < at[i] implies (#[trigger] entries[j]).0
                        != all[i] by {
                        assert(front[j].0 == entries[j].0);
                    }
                }
            }
            assert forall|i: int, j: int| 0 <= i < j < at.len() implies #[trigger] at[i]
                < #[trigger] at[j] by {
                assert(at[i] == before[i]);
                if j < before.len() {
                    assert(at[j] == before[j]);
                }
            }
            at
        }
    }
}

/// The row is the first charted row of its label.
pub open spec fn first_of_label(
    rows: Seq<JsonView>,
    default_label: Seq<char>,
    labels: Map<Seq<char>, Seq<char>>,
    r: int,
) -> bool {
    &&& 0 <= r < rows.len()
    &&& charted(rows[r])
    &&& forall|q: int|
        0 <= q < r && charted(#[trigger] rows[q]) ==> label_of(rows[q], default_label, labels)
            != label_of(rows[r], default_label, labels)
}

/// There is one series for each label of the charted rows, in the order in
/// which the labels first occur.
pub proof fn lemma_series_in_order_of_first_row(
    rows: Seq<JsonView>,
    default_label: Seq<char>,
    labels: Map<Seq<char>, Seq<char>>,
) -> (from: Seq<int>)
    ensures
        ({
            let series = graph::chart(rows, default_label, labels).series;
            &&& listing::are_places(
                from,
                rows.len(),
                |r: int| first_of_label(rows, default_label, labels, r),
            )
            &&& series.len() == from.len()
            &&& forall|i: int|
                0 <= i < series.len() ==> (#[trigger] series[i]).label == label_of(
                    rows[from[i]],
                    default_label,
                    labels,
                )
        }),
{
    let rule = |row: JsonView| graph::row_entry(row, default_label, labels);
    let entries = graph::row_entries(rows, default_label, labels);
    let places = listing::lemma_places(rows, rule);
    let kept = |r: int| rule(rows[r]) is Some;
    let at = lemma_first_seen_order(entries);
    let seen = graph::first_seen(entries);
    let series = graph::chart(rows, default_label, labels).series;
    let from = Seq::new(at.len(), |i: int| places[at[i]]);
    let first = |r: int| first_of_label(rows, default_label, labels, r);
    assert forall|j: int| 0 <= j < entries.len() implies ({
        let r = #[trigger] places[j];
        0 <= r < rows.len() && charted(rows[r]) && entries[j].0 == label_of(
            rows[r],
            default_label,
            labels,
        )
    }) by {
        assert(rule(rows[places[j]]) == Some(entries[j]));
        lemma_row(rows[places[j]], default_label, labels);
    }
    assert forall|q: int| 0 <= q < rows.len() && charted(#[trigger] rows[q]) implies exists|j: int|
        0 <= j < entries.len() && #[trigger] places[j] == q by {
        lemma_row(rows[q], default_label, labels);
        assert(kept(q));
        assert(places.contains(q));
    }
    assert forall|i: int| 0 <= i < from.len() implies 0 <= #[trigger] from[i] < rows.len()
        && first(from[i]) && seen[i] == label_of(rows[from[i]], default_label, labels) by {
        let u = at[i];
        assert(0 <= u < entries.len() && entries[u].0 == seen[i]);
        let r = places[u];
        assert(from[i] == r);
        assert forall|q: int| 0 <= q < r && charted(#[trigger] rows[q]) implies label_of(
            rows[q],
            default_label,
            labels,
        ) != label_of(rows[r], default_label, labels) by {
            let j = choose|j: int| 0 <= j < entries.len() && #[trigger] places[j] == q;
            if u <= j {
                if u < j {
                    assert(places[u] < places[j]);
                }
            } else {
                assert(entries[j].0 != seen[i]);
            }
        }
    }
    assert forall|i: int, j: int| 0 <= i < j < from.len() implies #[trigger] from[i]
        < #[trigger] from[j] by {
        let u = at[i];
        let v = at[j];
        assert(u < v);
        assert(places[u] < places[v]);
    }
    assert forall|r: int| 0 <= r < rows.len() && #[trigger] first(r) implies from.contains(r) by {
        let j = choose|j: int| 0 <= j < entries.len() && #[trigger] places[j] == r;
        graph::lemma_series_labels(entries);
        assert(entries[j].0 == label_of(rows[r], default_label, labels));
        assert(seen.contains(entries[j].0));
        let i = choose|i: int| 0 <= i < seen.len() && seen[i] == entries[j].0;
        let u = at[i];
        assert(entries[u].0 == seen[i]);
        if j < u {
            assert(entries[j].0 != seen[i]);
        }
        if u < j {
            assert(places[u] < places[j]);
            assert(charted(rows[places[u]]));
        }
        assert(from[i] == r);
    }
    from
}

/// The row at `i` is for the number beside the title and holds that point; no
/// such row has a later time, and none before it has the same.
pub open spec fn is_latest(rows: Seq<JsonView>, i: int, ts: Seq<char>, value: Double) -> bool {
    &&& 0 <= i < rows.len()
    &&& for_title(rows[i])
    &&& tells_point(rows[i], (ts, value))
    &&& forall|j: int, q: Point|
        0 <= j < rows.len() && for_title(rows[j]) && #[trigger] tells_point(rows[j], q)
            ==> !text::before(ts, q.0) && (j < i ==> q.0 != ts)
}

/// The number beside the title is that of the row for it with the latest time,
/// of the first such row where several share it; there is none only where no
/// row for it holds a point.
pub proof fn lemma_title_is_the_latest(
    rows: Seq<JsonView>,
    default_label: Seq<char>,
    labels: Map<Seq<char>, Seq<char>>,
) -> (from: (int, Seq<char>))
    ensures
        graph::chart(rows, default_label, labels).summary matches Some(v) ==> is_latest(
            rows,
            from.0,
            from.1,
            v,
        ),
        graph::chart(rows, default_label, labels).summary is None ==> forall|j: int|
            0 <= j < rows.len() && for_title(#[trigger] rows[j]) ==> !has_point(rows[j]),
{
    lemma_latest(rows);
    match graph::latest_summary(rows) {
        Some(p) => {
            let i = choose|i: int| is_latest(rows, i, p.0, p.1);
            (i, p.0)
        },
        None => (0, Seq::empty()),
    }
}

proof fn lemma_latest(rows: Seq<JsonView>)
    ensures
        match graph::latest_summary(rows) {
            Some(p) => exists|i: int| is_latest(rows, i, p.0, p.1),
            None => forall|j: int|
                0 <= j < rows.len() && for_title(#[trigger] rows[j]) ==> !has_point(rows[j]),
        },
    decreases rows.len(),
{
    if rows.len() > 0 {
        let front = rows.drop_last();
        let n = front.len() as int;
        let last = rows.last();
        lemma_latest(front);
        lemma_row(last, Seq::empty(), Map::empty());
        assert forall|i: int| 0 <= i < n implies front[i] == #[trigger] rows[i] by {}
        assert(rows[n] == last);
        match graph::latest_summary(front) {
            Some(p) => {
                let i = choose|i: int| is_latest(front, i, p.0, p.1);
                if for_title(last) && has_point(last) && text::before(
                    p.0,
                    (graph::row_point(last)->0).0,
                ) {
                    let w = graph::row_point(last)->0;
                    assert forall|j: int, q: Point|
                        0 <= j < rows.len() && for_title(rows[j]) && #[trigger] tells_point(
                            rows[j],
                            q,
                        ) implies !text::before(w.0, q.0) && (j < n ==> q.0 != w.0) by {
                        text::lemma_before_total(w.0, w.0);
                        if j < n {
                            assert(tells_point(front[j], q));
                            if text::before(w.0, q.0) {
                                text::lemma_before_transitive(p.0, w.0, q.0);
                            }
                        }
                    }
                    assert(is_latest(rows, n, w.0, w.1));
                } else {
                    assert forall|j: int, q: Point|
                        0 <= j < rows.len() && for_title(rows[j]) && #[trigger] tells_point(
                            rows[j],
                            q,
                        ) implies !text::before(p.0, q.0) && (j < i ==> q.0 != p.0) by {
                        if j < n {
                            assert(tells_point(front[j], q));
                        }
                    }
                    assert(is_latest(rows, i, p.0, p.1));
                }
            },
            None => {
                if for_title(last) && has_point(last) {
                    let w = graph::row_point(last)->0;
                    assert forall|j: int, q: Point|
                        0 <= j < rows.len() && for_title(rows[j]) && #[trigger] tells_point(
                            rows[j],
                            q,
                        ) implies !text::before(w.0, q.0) && (j < n ==> q.0 != w.0) by {
                        text::lemma_before_total(w.0, w.0);
                        if j < n {
                            assert(!has_point(front[j]));
                        }
                    }
                    assert(is_latest(rows, n, w.0, w.1));
                }
            },
        }
    }
}

} // verus!
