//! What the mesh says of the entries it was read from.

use vstd::prelude::*;

use crate::config::MeshThresholds;
use crate::json::{Integer, JsonView};
use crate::json_laws;
use crate::listing;
use crate::mesh;
use crate::mesh::{EdgeModel, MeshLink, NodeModel};
use crate::text;
use crate::text_laws;

verus! {

/// The lowest eight bits of the integer that a member holds.
pub open spec fn byte_of(v: JsonView, name: Seq<char>) -> Option<u8> {
    match v.field(name) {
        Some(JsonView::Number(n)) => match n.integer {
            Integer::Unsigned(u) => Some((u % 256) as u8),
            _ => None,
        },
        _ => None,
    }
}

/// The link quality in a member of an entry.
pub open spec fn quality(e: JsonView, member: Seq<char>) -> Option<u8> {
    match e.field(member) {
        Some(v) => byte_of(v, "lqi"@),
        None => None,
    }
}

/// The frame error rate in a member of an entry.
pub open spec fn errors(e: JsonView, member: Seq<char>) -> Option<u8> {
    match e.field(member) {
        Some(v) => byte_of(v, "frame_error_rate"@),
        None => None,
    }
}

/// The signal strength in a member of an entry.
pub open spec fn signal(e: JsonView, member: Seq<char>) -> Option<i64> {
    match e.field(member) {
        Some(v) => v.signed_at("avg_rssi"@),
        None => None,
    }
}

/// The lower of two values, of which either may be missing.
pub open spec fn lowest(a: Option<u8>, b: Option<u8>) -> Option<u8> {
    match (a, b) {
        (Some(x), Some(y)) => if y < x {
            b
        } else {
            a
        },
        (Some(_), None) => a,
        _ => b,
    }
}

/// The first of two error rates is there and higher than the second, or the
/// second is missing.
pub open spec fn more(f: Option<u8>, g: Option<u8>) -> bool {
    match (f, g) {
        (Some(x), Some(y)) => x > y,
        (Some(_), None) => true,
        _ => false,
    }
}

/// The member `b_sees_a` is the one that counts: it alone has a link quality,
/// or a lower one, or the same or none with more errors.
pub open spec fn b_counts(e: JsonView) -> bool {
    match (quality(e, "a_sees_b"@), quality(e, "b_sees_a"@)) {
        (Some(x), Some(y)) => y < x || (y == x && more(
            errors(e, "b_sees_a"@),
            errors(e, "a_sees_b"@),
        )),
        (None, Some(_)) => true,
        (Some(_), None) => false,
        (None, None) => more(errors(e, "b_sees_a"@), errors(e, "a_sees_b"@)),
    }
}

/// No member of the entry has a link quality or an error rate.
pub open spec fn unmeasured(e: JsonView) -> bool {
    &&& quality(e, "a_sees_b"@) is None && quality(e, "b_sees_a"@) is None
    &&& errors(e, "a_sees_b"@) is None && errors(e, "b_sees_a"@) is None
}

/// Reading the members of a measurement: each number by its own member, and
/// nothing from what is no object.
pub proof fn lemma_link_members(v: JsonView)
    ensures
        v is Object ==> (mesh::link(v) matches Some(l) && l.lqi == byte_of(v, "lqi"@) && l.fer
            == byte_of(v, "frame_error_rate"@) && l.rssi == v.signed_at("avg_rssi"@)),
        !(v is Object) ==> mesh::link(v) is None && byte_of(v, "lqi"@) is None && byte_of(
            v,
            "frame_error_rate"@,
        ) is None && v.signed_at("avg_rssi"@) is None,
{
}

proof fn lemma_two_views(e: JsonView)
    ensures
        ({
            let w = mesh::worst_view(
                mesh::seen(e, "a_sees_b"@) + mesh::seen(e, "b_sees_a"@),
            );
            &&& unmeasured(e) <==> w is None
            &&& w matches Some(l) ==> {
                let from = if b_counts(e) {
                    "b_sees_a"@
                } else {
                    "a_sees_b"@
                };
                l.lqi == quality(e, from) && l.fer == errors(e, from) && l.rssi == signal(e, from)
            }
        }),
{
    reveal_with_fuel(mesh::worst_by_lqi, 3);
    reveal_with_fuel(mesh::worst_by_fer, 3);
    let x = mesh::seen(e, "a_sees_b"@);
    let y = mesh::seen(e, "b_sees_a"@);
    if let Some(v) = e.field("a_sees_b"@) {
        lemma_link_members(v);
    }
    if let Some(v) = e.field("b_sees_a"@) {
        lemma_link_members(v);
    }
    let both = x + y;
    if x.len() == 1 && y.len() == 1 {
        assert(both =~= seq![x[0], y[0]]);
        assert(both.drop_last() =~= seq![x[0]]);
        assert(both.drop_last().drop_last() =~= Seq::<MeshLink>::empty());
    } else if x.len() == 1 {
        assert(both =~= seq![x[0]]);
        assert(both.drop_last() =~= Seq::<MeshLink>::empty());
    } else if y.len() == 1 {
        assert(both =~= seq![y[0]]);
        assert(both.drop_last() =~= Seq::<MeshLink>::empty());
    } else {
        assert(both =~= Seq::<MeshLink>::empty());
    }
}

/// The measurements of a link are those of the member that counts, both of
/// them looked at, whichever is there. Where either has a link quality, the
/// link has one, and it is the lower.
pub proof fn lemma_both_ends_count(e: JsonView, nodes: Seq<NodeModel>, t: MeshThresholds)
    requires
        mesh::edge(e, nodes, t) is Some,
    ensures
        ({
            let m = mesh::edge(e, nodes, t)->0;
            let from = if b_counts(e) {
                "b_sees_a"@
            } else {
                "a_sees_b"@
            };
            &&& m.lqi == lowest(quality(e, "a_sees_b"@), quality(e, "b_sees_a"@))
            &&& m.lqi is Some || m.fer is Some <==> !unmeasured(e)
            &&& !unmeasured(e) ==> m.lqi == quality(e, from) && m.fer == errors(e, from) && m.rssi
                == signal(e, from)
            &&& unmeasured(e) ==> m.lqi is None && m.fer is None && m.rssi is None
        }),
{
    lemma_two_views(e);
}

/// A link is the same, up to the signal strength, where its two ends have
/// changed places in the entry.
pub proof fn lemma_ends_may_change_places(
    e: JsonView,
    f: JsonView,
    nodes: Seq<NodeModel>,
    t: MeshThresholds,
)
    requires
        e.field("a_sees_b"@) == f.field("b_sees_a"@),
        e.field("b_sees_a"@) == f.field("a_sees_b"@),
        mesh::edge(e, nodes, t) is Some,
        mesh::edge(f, nodes, t) is Some,
    ensures
        mesh::edge(e, nodes, t)->0.lqi == mesh::edge(f, nodes, t)->0.lqi,
        mesh::edge(e, nodes, t)->0.fer == mesh::edge(f, nodes, t)->0.fer,
        mesh::edge(e, nodes, t)->0.grade == mesh::edge(f, nodes, t)->0.grade,
{
    lemma_two_views(e);
    lemma_two_views(f);
}

/// The grade that measurements are due: `bad` for a quality of zero; `weak` for
/// one up to the weak limit and for error rates from the limit on; `fair` for
/// one up to the fair limit; else `good`. Without a quality and without such
/// errors there is only a route.
pub open spec fn due_grade(
    lqi: Option<u8>,
    fer: Option<u8>,
    t: MeshThresholds,
    grade: Seq<char>,
) -> bool {
    let many = fer matches Some(f) && f >= t.fer_weak;
    match lqi {
        Some(q) => {
            &&& q == 0 ==> grade == "bad"@
            &&& q > 0 && (many || q <= t.lqi_weak) ==> grade == "weak"@
            &&& q > 0 && !many && q > t.lqi_weak && q <= t.lqi_fair ==> grade == "fair"@
            &&& q > 0 && !many && q > t.lqi_weak && q > t.lqi_fair ==> grade == "good"@
        },
        None => {
            &&& many ==> grade == "weak"@
            &&& !many ==> grade == "route_only"@
        },
    }
}

/// A measurement has the grade that it is due.
pub proof fn lemma_grade_is_due(l: MeshLink, t: MeshThresholds)
    ensures
        due_grade(l.lqi, l.fer, t, mesh::grade(l, t)),
{
}

/// A link has the grade that its own measurements are due.
pub proof fn lemma_link_grade_is_due(e: JsonView, nodes: Seq<NodeModel>, t: MeshThresholds)
    requires
        mesh::edge(e, nodes, t) is Some,
    ensures
        ({
            let m = mesh::edge(e, nodes, t)->0;
            due_grade(m.lqi, m.fer, t, m.grade)
        }),
{
}

/// How bad the grades are.
pub proof fn lemma_badness()
    ensures
        mesh::badness("good"@) == 0,
        mesh::badness("fair"@) == 1,
        mesh::badness("weak"@) == 2,
        mesh::badness("bad"@) == 3,
        forall|g: Seq<char>|
            g != "fair"@ && g != "weak"@ && g != "bad"@ ==> #[trigger] mesh::badness(g) == 0,
{
    reveal_strlit("good");
    reveal_strlit("fair");
    reveal_strlit("weak");
    reveal_strlit("bad");
    assert("good"@[0] == 'g' && "fair"@[0] == 'f' && "weak"@[0] == 'w' && "bad"@[0] == 'b');
}

/// A measurement is worse than another: by a lower quality, where a missing
/// one is the lowest, and at the same quality by a higher error rate, where a
/// missing one is the lowest.
pub proof fn lemma_worse(l: MeshLink, m: MeshLink)
    ensures
        mesh::worse(l, m) <==> {
            ||| (l.lqi is None && m.lqi is Some)
            ||| (l.lqi matches Some(x) && (m.lqi matches Some(y) && x < y))
            ||| (l.lqi == m.lqi && more(l.fer, m.fer))
        },
{
}

/// Of measurements that were listed one after the other, the last is picked
/// only where it is worse than what was picked so far.
pub proof fn lemma_picking(views: Seq<MeshLink>, v: MeshLink)
    ensures
        mesh::worst_view(Seq::empty()) is None,
        v.lqi is Some && mesh::worst_view(views) is None ==> mesh::worst_view(views.push(v))
            == Some(v),
        v.lqi is Some ==> (mesh::worst_view(views) matches Some(w) ==> mesh::worst_view(
            views.push(v),
        ) == Some(
            if w.lqi is None || mesh::worse(v, w) {
                v
            } else {
                w
            },
        )),
        v.lqi is None && v.fer is Some && mesh::worst_view(views) is None ==> mesh::worst_view(
            views.push(v),
        ) == Some(v),
        v.lqi is None ==> (mesh::worst_view(views) matches Some(w) ==> mesh::worst_view(
            views.push(v),
        ) == Some(
            if w.lqi is None && more(v.fer, w.fer) {
                v
            } else {
                w
            },
        )),
        v.lqi is None && v.fer is None ==> mesh::worst_view(views.push(v)) == mesh::worst_view(
            views,
        ),
{
    assert(views.push(v).drop_last() =~= views);
    mesh::lemma_worst_view(views);
    lemma_worst_by_lqi_has_one(views);
    lemma_worst_by_fer_has_one(views);
}

proof fn lemma_worst_by_lqi_has_one(views: Seq<MeshLink>)
    ensures
        mesh::worst_by_lqi(views) matches Some(w) ==> w.lqi is Some,
        mesh::worst_by_lqi(views) is None ==> forall|i: int|
            0 <= i < views.len() ==> (#[trigger] views[i]).lqi is None,
    decreases views.len(),
{
    if views.len() > 0 {
        let front = views.drop_last();
        lemma_worst_by_lqi_has_one(front);
        assert forall|i: int| 0 <= i < front.len() implies front[i] == #[trigger] views[i] by {}
        assert(views[views.len() - 1] == views.last());
    }
}

proof fn lemma_worst_by_fer_has_one(views: Seq<MeshLink>)
    ensures
        mesh::worst_by_fer(views) matches Some(w) ==> w.fer is Some,
    decreases views.len(),
{
    if views.len() > 0 {
        lemma_worst_by_fer_has_one(views.drop_last());
    }
}

/// The first four bytes of a text, as UTF-8.
pub open spec fn four_bytes(s: Seq<char>, start: Seq<char>) -> bool {
    exists|n: int|
        0 <= n <= s.len() && start == #[trigger] s.take(n) && vstd::utf8::encode_utf8(start).len()
            == 4
}

/// The participant is what the entry says.
pub open spec fn tells_node(
    n: JsonView,
    labels: Map<Seq<char>, Seq<char>>,
    m: NodeModel,
) -> bool {
    &&& json_laws::string_at(n, "id"@) == Some(m.id)
    &&& match json_laws::string_at(n, "alias"@) {
        Some(alias) => {
            &&& m.kind == "ours"@
            &&& labels.contains_key(alias) ==> m.name == labels[alias]
            &&& !labels.contains_key(alias) ==> m.name == alias
        },
        None => match json_laws::string_at(n, "label"@) {
            Some(label) => m.kind == "named"@ && m.name == label,
            None => {
                &&& m.kind == "anonymous"@
                &&& match json_laws::string_at(n, "ext_address"@) {
                    Some(x) => {
                        &&& vstd::utf8::encode_utf8(x).len() < 4 ==> m.name == x
                        &&& vstd::utf8::encode_utf8(x).len() >= 4 && mesh::cuttable(n)
                            ==> four_bytes(x, m.name)
                    },
                    None => m.name == m.id,
                }
            },
        },
    }
    &&& json_laws::string_at(n, "role"@) matches Some(role) ==> m.role == role
    &&& json_laws::string_at(n, "role"@) is None ==> m.role == "unknown"@
    &&& m.is_leader <==> json_laws::string_at(n, "role"@) == Some("leader"@)
    &&& m.probed == match n.field("probed"@) {
        Some(JsonView::Bool(b)) => Some(b),
        _ => None,
    }
    &&& m.error_kind == match n.field("probe_error"@) {
        Some(x) => json_laws::string_at(x, "kind"@),
        None => None,
    }
}

proof fn lemma_node(n: JsonView, labels: Map<Seq<char>, Seq<char>>)
    ensures
        mesh::node(n, labels) is Some <==> json_laws::string_at(n, "id"@) is Some,
        mesh::node(n, labels) matches Some(m) ==> tells_node(n, labels, m),
{
    reveal_strlit("unknown");
    reveal_strlit("leader");
    assert("unknown"@[0] == 'u' && "leader"@[0] == 'l');
    if let Some(e) = n.text_at("ext_address"@) {
        text_laws::lemma_bytes_are_utf8(e);
        text_laws::lemma_head_meaning(e, 4);
    }
}

/// The cut after four bytes falls between two characters in every entry whose
/// address is needed.
pub proof fn lemma_cuttable(n: JsonView)
    ensures
        mesh::cuttable(n) <==> {
            ||| json_laws::string_at(n, "id"@) is None
            ||| json_laws::string_at(n, "alias"@) is Some
            ||| json_laws::string_at(n, "label"@) is Some
            ||| json_laws::string_at(n, "ext_address"@) is None
            ||| (json_laws::string_at(n, "ext_address"@) matches Some(x) && (
            vstd::utf8::encode_utf8(x).len() < 4 || exists|start: Seq<char>| four_bytes(x, start)))
        },
{
    if let Some(e) = n.text_at("ext_address"@) {
        text_laws::lemma_bytes_are_utf8(e);
        text_laws::lemma_head_meaning(e, 4);
        if let Some(h) = text::head(e, 4) {
            assert(four_bytes(e, h));
        } else {
            assert forall|start: Seq<char>| !four_bytes(e, start) by {}
        }
    }
}

/// The participants of a mesh are those entries that have a key, in their
/// order, each as its entry says.
pub proof fn lemma_nodes_are_the_entries(
    raw: JsonView,
    t: MeshThresholds,
    labels: Map<Seq<char>, Seq<char>>,
) -> (places: Seq<int>)
    ensures
        ({
            let nodes = json_laws::list_at(raw, "nodes"@);
            let m = mesh::mesh(raw, t, labels);
            &&& listing::are_places(
                places,
                nodes.len(),
                |i: int| json_laws::string_at(nodes[i], "id"@) is Some,
            )
            &&& m.nodes.len() == places.len()
            &&& forall|k: int|
                0 <= k < m.nodes.len() ==> tells_node(
                    nodes[places[k]],
                    labels,
                    #[trigger] m.nodes[k],
                )
        }),
{
    let nodes = json_laws::list_at(raw, "nodes"@);
    let rule = |n: JsonView| mesh::node(n, labels);
    assert(mesh::entries(raw, "nodes"@) =~= nodes);
    let places = listing::lemma_places(nodes, rule);
    let kept = |i: int| rule(nodes[i]) is Some;
    let named = |i: int| json_laws::string_at(nodes[i], "id"@) is Some;
    assert forall|i: int| #[trigger] kept(i) == named(i) by {
        lemma_node(nodes[i], labels);
    }
    assert forall|i: int| 0 <= i < nodes.len() && #[trigger] named(i) implies places.contains(
        i,
    ) by {
        assert(kept(i));
    }
    let m = mesh::mesh(raw, t, labels);
    assert forall|k: int| 0 <= k < m.nodes.len() implies tells_node(
        nodes[places[k]],
        labels,
        #[trigger] m.nodes[k],
    ) by {
        assert(rule(nodes[places[k]]) == Some(m.nodes[k]));
        lemma_node(nodes[places[k]], labels);
    }
    assert forall|k: int| 0 <= k < places.len() implies named(#[trigger] places[k]) by {
        assert(kept(places[k]));
    }
    places
}

/// One of the entries for participants has that key.
pub open spec fn has_entry(nodes: Seq<JsonView>, id: Seq<char>) -> bool {
    exists|i: int|
        0 <= i < nodes.len() && json_laws::string_at(#[trigger] nodes[i], "id"@) == Some(id)
}

/// A participant is known exactly where an entry has its key.
pub proof fn lemma_known(
    raw: JsonView,
    t: MeshThresholds,
    labels: Map<Seq<char>, Seq<char>>,
    id: Seq<char>,
)
    ensures
        mesh::known(mesh::mesh(raw, t, labels).nodes, id) <==> has_entry(
            json_laws::list_at(raw, "nodes"@),
            id,
        ),
{
    let nodes = json_laws::list_at(raw, "nodes"@);
    let m = mesh::mesh(raw, t, labels);
    let places = lemma_nodes_are_the_entries(raw, t, labels);
    let named = |i: int| json_laws::string_at(nodes[i], "id"@) is Some;
    if mesh::known(m.nodes, id) {
        let k = choose|k: int| 0 <= k < m.nodes.len() && (#[trigger] m.nodes[k]).id == id;
        assert(tells_node(nodes[places[k]], labels, m.nodes[k]));
        assert(0 <= places[k] < nodes.len());
        assert(json_laws::string_at(nodes[places[k]], "id"@) == Some(id));
    }
    if has_entry(nodes, id) {
        let i = choose|i: int|
            0 <= i < nodes.len() && json_laws::string_at(#[trigger] nodes[i], "id"@) == Some(id);
        assert(named(i));
        let k = choose|k: int| 0 <= k < places.len() && places[k] == i;
        assert(tells_node(nodes[places[k]], labels, m.nodes[k]));
        assert(m.nodes[k].id == id);
    }
}

/// The entry names two participants that have entries.
pub open spec fn connects(e: JsonView, nodes: Seq<JsonView>) -> bool {
    &&& json_laws::string_at(e, "a"@) matches Some(a) && has_entry(nodes, a)
    &&& json_laws::string_at(e, "b"@) matches Some(b) && has_entry(nodes, b)
}

/// The link is what the entry says: between those two ends, with the
/// measurements of the end that counts and the grade that they are due.
pub open spec fn tells_edge(e: JsonView, t: MeshThresholds, m: EdgeModel) -> bool {
    let from = if b_counts(e) {
        "b_sees_a"@
    } else {
        "a_sees_b"@
    };
    &&& json_laws::string_at(e, "a"@) == Some(m.a)
    &&& json_laws::string_at(e, "b"@) == Some(m.b)
    &&& m.lqi == lowest(quality(e, "a_sees_b"@), quality(e, "b_sees_a"@))
    &&& !unmeasured(e) ==> m.lqi == quality(e, from) && m.fer == errors(e, from) && m.rssi
        == signal(e, from)
    &&& unmeasured(e) ==> m.lqi is None && m.fer is None && m.rssi is None
    &&& due_grade(m.lqi, m.fer, t, m.grade)
}

/// The links of a mesh are those entries that connect two participants, in
/// their order, each as its entry says.
pub proof fn lemma_edges_are_the_entries(
    raw: JsonView,
    t: MeshThresholds,
    labels: Map<Seq<char>, Seq<char>>,
) -> (places: Seq<int>)
    ensures
        ({
            let nodes = json_laws::list_at(raw, "nodes"@);
            let edges = json_laws::list_at(raw, "edges"@);
            let m = mesh::mesh(raw, t, labels);
            &&& listing::are_places(places, edges.len(), |i: int| connects(edges[i], nodes))
            &&& m.edges.len() == places.len()
            &&& forall|k: int|
                0 <= k < m.edges.len() ==> tells_edge(edges[places[k]], t, #[trigger] m.edges[k])
        }),
{
    let nodes = json_laws::list_at(raw, "nodes"@);
    let edges = json_laws::list_at(raw, "edges"@);
    let m = mesh::mesh(raw, t, labels);
    let rule = |e: JsonView| mesh::edge(e, m.nodes, t);
    assert(mesh::entries(raw, "edges"@) =~= edges);
    let places = listing::lemma_places(edges, rule);
    let kept = |i: int| rule(edges[i]) is Some;
    let wanted = |i: int| connects(edges[i], nodes);
    assert forall|i: int| #[trigger] kept(i) == wanted(i) by {
        if let Some(a) = json_laws::string_at(edges[i], "a"@) {
            lemma_known(raw, t, labels, a);
        }
        if let Some(b) = json_laws::string_at(edges[i], "b"@) {
            lemma_known(raw, t, labels, b);
        }
    }
    assert forall|i: int| 0 <= i < edges.len() && #[trigger] wanted(i) implies places.contains(
        i,
    ) by {
        assert(kept(i));
    }
    assert forall|k: int| 0 <= k < places.len() implies wanted(#[trigger] places[k]) by {
        assert(kept(places[k]));
    }
    assert forall|k: int| 0 <= k < m.edges.len() implies tells_edge(
        edges[places[k]],
        t,
        #[trigger] m.edges[k],
    ) by {
        let e = edges[places[k]];
        assert(rule(e) == Some(m.edges[k]));
        lemma_both_ends_count(e, m.nodes, t);
        lemma_link_grade_is_due(e, m.nodes, t);
    }
    places
}

/// An entry with an alias whose key begins with `node:`.
pub open spec fn nameless(n: JsonView) -> bool {
    json_laws::string_at(n, "alias"@) is Some && exists|rest: Seq<char>|
        json_laws::string_at(n, "id"@) == Some(#[trigger] ("node:"@ + rest))
}

/// As many are unidentified as entries have an alias and a key that begins
/// with `node:`.
pub proof fn lemma_unidentified_are_counted(
    raw: JsonView,
    t: MeshThresholds,
    labels: Map<Seq<char>, Seq<char>>,
)
    ensures
        mesh::mesh(raw, t, labels).unidentified_count == json_laws::list_at(raw, "nodes"@).filter(
            |n: JsonView| nameless(n),
        ).len(),
{
    assert(mesh::entries(raw, "nodes"@) =~= json_laws::list_at(raw, "nodes"@));
    lemma_counting(json_laws::list_at(raw, "nodes"@));
}

proof fn lemma_counting(nodes: Seq<JsonView>)
    ensures
        mesh::unidentified_in(nodes) == nodes.filter(|n: JsonView| nameless(n)).len(),
    decreases nodes.len(),
{
    reveal(Seq::filter);
    if nodes.len() > 0 {
        lemma_counting(nodes.drop_last());
        let n = nodes.last();
        if let Some(id) = json_laws::string_at(n, "id"@) {
            text_laws::lemma_begins_meaning(id, "node:"@);
        }
        assert(nameless(n) == mesh::unidentified(n));
    }
}

/// What the mesh says of the network and of its own time stands under these
/// names in the output; the mesh has come apart where more than one partition
/// is listed.
pub proof fn lemma_network(raw: JsonView, t: MeshThresholds, labels: Map<Seq<char>, Seq<char>>)
    ensures
        ({
            let m = mesh::mesh(raw, t, labels);
            &&& m.fetched_at == json_laws::string_at(raw, "timestamp"@)
            &&& match raw.field("network"@) {
                Some(n) => {
                    &&& m.network.name == json_laws::string_at(n, "name"@)
                    &&& m.network.channel == n.unsigned_at("channel"@)
                    &&& m.network.leader_router_id == n.unsigned_at("leader_router_id"@)
                    &&& m.network.split <==> json_laws::list_at(n, "partition_ids"@).len() > 1
                },
                None => m.network.name is None && m.network.channel is None
                    && m.network.leader_router_id is None && !m.network.split,
            }
        }),
{
}

} // verus!
