//! The radio mesh: who takes part in it, and how good its links are.

use vstd::prelude::*;

use crate::config::MeshThresholds;
use crate::dict;
use crate::dict::Dict;
use crate::json;
use crate::json::{Json, JsonView};
use crate::text;

verus! {

/// The network as a whole.
#[derive(Debug)]
pub struct MeshNetwork {
    pub name: Option<String>,
    pub channel: Option<u64>,
    pub leader_router_id: Option<u64>,
    /// Whether the mesh has come apart into several partitions.
    pub split: bool,
}

/// A participant.
#[derive(Debug)]
pub struct MeshNode {
    /// The stable key of the participant.
    pub id: String,
    /// The name to show.
    pub name: String,
    /// `ours`, `named` for a foreign one with a name, else `anonymous`.
    pub kind: String,
    pub role: String,
    pub is_leader: bool,
    /// Whether it answered; only our own ones are asked.
    pub probed: Option<bool>,
    pub error_kind: Option<String>,
}

/// A link. The measurements are those of the end that sees it worse; what was
/// not measured is absent.
#[derive(Debug)]
pub struct MeshEdge {
    pub a: String,
    pub b: String,
    /// `good`, `fair`, `weak`, `bad`, or `route_only` where the quality is not
    /// known.
    pub grade: String,
    pub lqi: Option<u8>,
    pub rssi: Option<i64>,
    pub fer: Option<u8>,
}

/// The mesh in a form that does not depend on the tool that read it.
#[derive(Debug)]
pub struct MeshView {
    pub network: MeshNetwork,
    pub nodes: Vec<MeshNode>,
    pub edges: Vec<MeshEdge>,
    /// How many of our own nodes could not name their address.
    pub unidentified_count: usize,
    pub fetched_at: Option<String>,
}

/// What one end measured of a link.
#[derive(Debug, Clone, Copy, PartialEq, Eq, Structural)]
pub struct MeshLink {
    pub lqi: Option<u8>,
    pub rssi: Option<i64>,
    pub fer: Option<u8>,
}

/// What a description of the network says.
pub struct NetworkModel {
    pub name: Option<Seq<char>>,
    pub channel: Option<u64>,
    pub leader_router_id: Option<u64>,
    pub split: bool,
}

/// What a description of a participant says.
pub struct NodeModel {
    pub id: Seq<char>,
    pub name: Seq<char>,
    pub kind: Seq<char>,
    pub role: Seq<char>,
    pub is_leader: bool,
    pub probed: Option<bool>,
    pub error_kind: Option<Seq<char>>,
}

/// What a description of a link says.
pub struct EdgeModel {
    pub a: Seq<char>,
    pub b: Seq<char>,
    pub grade: Seq<char>,
    pub lqi: Option<u8>,
    pub rssi: Option<i64>,
    pub fer: Option<u8>,
}

/// What a description of the mesh says.
pub struct MeshModel {
    pub network: NetworkModel,
    pub nodes: Seq<NodeModel>,
    pub edges: Seq<EdgeModel>,
    pub unidentified_count: nat,
    pub fetched_at: Option<Seq<char>>,
}

impl View for MeshNetwork {
    type V = NetworkModel;

    open spec fn view(&self) -> NetworkModel {
        NetworkModel {
            name: text::held(self.name),
            channel: self.channel,
            leader_router_id: self.leader_router_id,
            split: self.split,
        }
    }
}

impl View for MeshNode {
    type V = NodeModel;

    open spec fn view(&self) -> NodeModel {
        NodeModel {
            id: self.id@,
            name: self.name@,
            kind: self.kind@,
            role: self.role@,
            is_leader: self.is_leader,
            probed: self.probed,
            error_kind: text::held(self.error_kind),
        }
    }
}

impl View for MeshEdge {
    type V = EdgeModel;

    open spec fn view(&self) -> EdgeModel {
        EdgeModel {
            a: self.a@,
            b: self.b@,
            grade: self.grade@,
            lqi: self.lqi,
            rssi: self.rssi,
            fer: self.fer,
        }
    }
}

/// What a list of participants says.
pub open spec fn node_models(nodes: Seq<MeshNode>) -> Seq<NodeModel> {
    Seq::new(nodes.len(), |i: int| nodes[i]@)
}

/// What a list of links says.
pub open spec fn edge_models(edges: Seq<MeshEdge>) -> Seq<EdgeModel> {
    Seq::new(edges.len(), |i: int| edges[i]@)
}

impl View for MeshView {
    type V = MeshModel;

    open spec fn view(&self) -> MeshModel {
        MeshModel {
            network: self.network@,
            nodes: node_models(self.nodes@),
            edges: edge_models(self.edges@),
            unidentified_count: self.unidentified_count as nat,
            fetched_at: text::held(self.fetched_at),
        }
    }
}

/// A number as far as its lowest eight bits go.
pub open spec fn low_byte(n: Option<u64>) -> Option<u8> {
    match n {
        Some(v) => Some((v % 256) as u8),
        None => None,
    }
}

/// The measurements that an object holds.
pub open spec fn link(v: JsonView) -> Option<MeshLink> {
    if v is Object {
        Some(
            MeshLink {
                lqi: low_byte(v.unsigned_at("lqi"@)),
                rssi: v.signed_at("avg_rssi"@),
                fer: low_byte(v.unsigned_at("frame_error_rate"@)),
            },
        )
    } else {
        None
    }
}

fn to_low_byte(n: Option<u64>) -> (r: Option<u8>)
    ensures
        r == low_byte(n),
{
    match n {
        Some(v) => Some((v % 256) as u8),
        None => None,
    }
}

/// The measurements that an object holds. Each of them may be missing.
pub fn read_link(v: &Json) -> (r: Option<MeshLink>)
    ensures
        r == link(v@),
{
    match v {
        Json::Object(_) => Some(
            MeshLink {
                lqi: to_low_byte(v.u64_at("lqi")),
                rssi: v.i64_at("avg_rssi"),
                fer: to_low_byte(v.u64_at("frame_error_rate")),
            },
        ),
        _ => None,
    }
}

/// How bad a grade is.
pub open spec fn badness(grade: Seq<char>) -> u8 {
    if grade == "good"@ {
        0
    } else if grade == "fair"@ {
        1
    } else if grade == "weak"@ {
        2
    } else if grade == "bad"@ {
        3
    } else {
        0
    }
}

/// How bad a grade is; larger is worse.
pub fn severity(grade: &str) -> (r: u8)
    ensures
        r == badness(grade@),
{
    if text::same(grade, "good") {
        0
    } else if text::same(grade, "fair") {
        1
    } else if text::same(grade, "weak") {
        2
    } else if text::same(grade, "bad") {
        3
    } else {
        0
    }
}

/// The first of two measurements is worse: its link quality is lower, or equal
/// with more frame errors. A missing value is less than any other.
pub open spec fn worse(candidate: MeshLink, current: MeshLink) -> bool {
    match (candidate.lqi, current.lqi) {
        (Some(a), Some(b)) if a != b => a < b,
        (None, Some(_)) => true,
        (Some(_), None) => false,
        _ => match (candidate.fer, current.fer) {
            (Some(a), Some(b)) => a > b,
            (Some(_), None) => true,
            (None, _) => false,
        },
    }
}

/// Whether the first of two measurements is worse.
pub fn is_worse_by_lqi(candidate: MeshLink, current: MeshLink) -> (r: bool)
    ensures
        r == worse(candidate, current),
{
    match (candidate.lqi, current.lqi) {
        (Some(a), Some(b)) => {
            if a != b {
                return a < b;
            }
        },
        (None, Some(_)) => return true,
        (Some(_), None) => return false,
        (None, None) => {},
    }
    match (candidate.fer, current.fer) {
        (Some(a), Some(b)) => a > b,
        (Some(_), None) => true,
        (None, _) => false,
    }
}

/// The worst of the measurements with a link quality, the first of equals.
pub open spec fn worst_by_lqi(views: Seq<MeshLink>) -> Option<MeshLink>
    decreases views.len(),
{
    if views.len() == 0 {
        None
    } else {
        let before = worst_by_lqi(views.drop_last());
        let v = views.last();
        if v.lqi is None {
            before
        } else {
            match before {
                None => Some(v),
                Some(c) => if worse(v, c) {
                    Some(v)
                } else {
                    before
                },
            }
        }
    }
}

/// The measurement with the most frame errors, the first of equals.
pub open spec fn worst_by_fer(views: Seq<MeshLink>) -> Option<MeshLink>
    decreases views.len(),
{
    if views.len() == 0 {
        None
    } else {
        let before = worst_by_fer(views.drop_last());
        let v = views.last();
        if v.fer is None {
            before
        } else {
            match before {
                None => Some(v),
                Some(c) => if v.fer->0 > c.fer->0 {
                    Some(v)
                } else {
                    before
                },
            }
        }
    }
}

/// The measurement that stands for a link: the worst with a link quality; the
/// worst by frame errors where none has one; none where nothing was measured.
pub open spec fn worst_view(views: Seq<MeshLink>) -> Option<MeshLink> {
    match worst_by_lqi(views) {
        Some(v) => Some(v),
        None => worst_by_fer(views),
    }
}

/// The measurement that stands for a link.
pub fn pick_worst(views: &[MeshLink]) -> (r: Option<MeshLink>)
    ensures
        r == worst_view(views@),
{
    let mut worst: Option<MeshLink> = None;
    let mut i: usize = 0;
    while i < views.len()
        invariant
            i <= views.len(),
            worst == worst_by_lqi(views@.take(i as int)),
        decreases views.len() - i,
    {
        assert(views@.take(i + 1).drop_last() =~= views@.take(i as int));
        let v = views[i];
        if v.lqi.is_some() {
            worst = match worst {
                None => Some(v),
                Some(c) => if is_worse_by_lqi(v, c) {
                    Some(v)
                } else {
                    Some(c)
                },
            };
        }
        i += 1;
    }
    assert(views@.take(views@.len() as int) =~= views@);
    if worst.is_some() {
        return worst;
    }
    i = 0;
    while i < views.len()
        invariant
            i <= views.len(),
            worst == worst_by_fer(views@.take(i as int)),
            worst matches Some(c) ==> c.fer is Some,
        decreases views.len() - i,
    {
        assert(views@.take(i + 1).drop_last() =~= views@.take(i as int));
        let v = views[i];
        if let Some(f) = v.fer {
            worst = match worst {
                None => Some(v),
                Some(c) => match c.fer {
                    Some(g) => if f > g {
                        Some(v)
                    } else {
                        Some(c)
                    },
                    None => Some(c),
                },
            };
        }
        i += 1;
    }
    worst
}

/// Frame errors from the limit on.
pub open spec fn lossy(l: MeshLink, t: MeshThresholds) -> bool {
    l.fer matches Some(f) && f >= t.fer_weak
}

/// The grade of a link quality above zero.
pub open spec fn lqi_grade(lqi: u8, t: MeshThresholds) -> Seq<char> {
    if lqi <= t.lqi_weak {
        "weak"@
    } else if lqi <= t.lqi_fair {
        "fair"@
    } else {
        "good"@
    }
}

/// The grade of a link. Frame errors from the limit on make it at best weak; a
/// link without a link quality and without such errors is not graded.
pub open spec fn grade(l: MeshLink, t: MeshThresholds) -> Seq<char> {
    match l.lqi {
        Some(lqi) => if lqi == 0 {
            "bad"@
        } else if lossy(l, t) {
            "weak"@
        } else {
            lqi_grade(lqi, t)
        },
        None => if lossy(l, t) {
            "weak"@
        } else {
            "route_only"@
        },
    }
}

/// The grade of a link.
pub fn grade_link(l: MeshLink, t: &MeshThresholds) -> (r: &'static str)
    ensures
        r@ == grade(l, *t),
{
    proof {
        reveal_strlit("good");
        reveal_strlit("fair");
        reveal_strlit("weak");
        assert("good"@[0] != "fair"@[0] && "good"@[0] != "weak"@[0] && "fair"@[0] != "weak"@[0]);
    }
    let worsen_by_fer: bool = match l.fer {
        Some(f) => f >= t.fer_weak,
        None => false,
    };
    match l.lqi {
        Some(lqi) => {
            if lqi == 0 {
                return "bad";
            }
            let by_lqi: &'static str = if lqi <= t.lqi_weak {
                "weak"
            } else if lqi <= t.lqi_fair {
                "fair"
            } else {
                "good"
            };
            if worsen_by_fer && severity(by_lqi) < severity("weak") {
                "weak"
            } else {
                by_lqi
            }
        },
        None => if worsen_by_fer {
            "weak"
        } else {
            "route_only"
        },
    }
}

/// A participant without alias and label is shown by the first four bytes of
/// its address, by the whole of a shorter one, and by its key without any.
pub open spec fn anonymous_name(n: JsonView, id: Seq<char>) -> Seq<char> {
    match n.text_at("ext_address"@) {
        Some(e) => if text::bytes(e) >= 4 {
            text::head(e, 4)->0
        } else {
            e
        },
        None => id,
    }
}

/// No character of the address stands across the cut after four bytes, where
/// the address is needed.
pub open spec fn cuttable(n: JsonView) -> bool {
    n.text_at("id"@) is Some && n.text_at("alias"@) is None && n.text_at("label"@) is None ==> (
    n.text_at("ext_address"@) matches Some(e) ==> text::bytes(e) >= 4 ==> text::head(
        e,
        4,
    ) is Some)
}

/// The participant that an entry describes; an entry without a key describes
/// none.
pub open spec fn node(n: JsonView, labels: Map<Seq<char>, Seq<char>>) -> Option<NodeModel> {
    match n.text_at("id"@) {
        None => None,
        Some(id) => {
            let role = match n.text_at("role"@) {
                Some(r) => r,
                None => "unknown"@,
            };
            let (kind, name) = match (n.text_at("alias"@), n.text_at("label"@)) {
                (Some(a), _) => ("ours"@, dict::shown(labels, a)),
                (None, Some(l)) => ("named"@, l),
                (None, None) => ("anonymous"@, anonymous_name(n, id)),
            };
            Some(
                NodeModel {
                    id,
                    name,
                    kind,
                    role,
                    is_leader: role == "leader"@,
                    probed: n.truth_at("probed"@),
                    error_kind: match n.field("probe_error"@) {
                        Some(e) => e.text_at("kind"@),
                        None => None,
                    },
                },
            )
        },
    }
}

/// One of our own nodes that could not name its address.
pub open spec fn unidentified(n: JsonView) -> bool {
    n.text_at("alias"@) is Some && (n.text_at("id"@) matches Some(id) && text::begins(
        id,
        "node:"@,
    ))
}

/// The elements of the array of that name, none where there is no such array.
pub open spec fn entries(raw: JsonView, name: Seq<char>) -> Seq<JsonView> {
    match raw.elements_at(name) {
        Some(s) => s,
        None => Seq::empty(),
    }
}

/// The participants that a list of entries describes.
pub open spec fn nodes_in(
    raw_nodes: Seq<JsonView>,
    labels: Map<Seq<char>, Seq<char>>,
) -> Seq<NodeModel> {
    raw_nodes.filter_map(|n: JsonView| node(n, labels))
}

/// How many entries of a list are unidentified.
pub open spec fn unidentified_in(raw_nodes: Seq<JsonView>) -> nat
    decreases raw_nodes.len(),
{
    if raw_nodes.len() == 0 {
        0
    } else {
        unidentified_in(raw_nodes.drop_last()) + if unidentified(raw_nodes.last()) {
            1nat
        } else {
            0
        }
    }
}

/// A participant with that key is in the list.
pub open spec fn known(nodes: Seq<NodeModel>, id: Seq<char>) -> bool {
    exists|i: int| 0 <= i < nodes.len() && (#[trigger] nodes[i]).id == id
}

/// What the member of that name measured, if anything.
pub open spec fn seen(e: JsonView, name: Seq<char>) -> Seq<MeshLink> {
    match e.field(name) {
        Some(v) => match link(v) {
            Some(l) => seq![l],
            None => Seq::empty(),
        },
        None => Seq::empty(),
    }
}

/// The link that an entry describes; an entry without two known ends describes
/// none.
pub open spec fn edge(e: JsonView, nodes: Seq<NodeModel>, t: MeshThresholds) -> Option<EdgeModel> {
    match (e.text_at("a"@), e.text_at("b"@)) {
        (Some(a), Some(b)) => if known(nodes, a) && known(nodes, b) {
            Some(
                match worst_view(seen(e, "a_sees_b"@) + seen(e, "b_sees_a"@)) {
                    Some(l) => EdgeModel {
                        a,
                        b,
                        grade: grade(l, t),
                        lqi: l.lqi,
                        rssi: l.rssi,
                        fer: l.fer,
                    },
                    None => EdgeModel {
                        a,
                        b,
                        grade: "route_only"@,
                        lqi: None,
                        rssi: None,
                        fer: None,
                    },
                },
            )
        } else {
            None
        },
        _ => None,
    }
}

/// The links that a list of entries describes.
pub open spec fn edges_in(
    raw_edges: Seq<JsonView>,
    nodes: Seq<NodeModel>,
    t: MeshThresholds,
) -> Seq<EdgeModel> {
    raw_edges.filter_map(|e: JsonView| edge(e, nodes, t))
}

/// The network that an output describes.
pub open spec fn network(raw: JsonView) -> NetworkModel {
    match raw.field("network"@) {
        Some(n) => NetworkModel {
            name: n.text_at("name"@),
            channel: n.unsigned_at("channel"@),
            leader_router_id: n.unsigned_at("leader_router_id"@),
            split: entries(n, "partition_ids"@).len() > 1,
        },
        None => NetworkModel { name: None, channel: None, leader_router_id: None, split: false },
    }
}

/// The mesh that an output describes.
pub open spec fn mesh(
    raw: JsonView,
    t: MeshThresholds,
    labels: Map<Seq<char>, Seq<char>>,
) -> MeshModel {
    let nodes = nodes_in(entries(raw, "nodes"@), labels);
    MeshModel {
        network: network(raw),
        nodes,
        edges: edges_in(entries(raw, "edges"@), nodes, t),
        unidentified_count: unidentified_in(entries(raw, "nodes"@)),
        fetched_at: raw.text_at("timestamp"@),
    }
}

/// No address of an output would be cut across a character.
pub open spec fn all_cuttable(raw: JsonView) -> bool {
    forall|i: int|
        0 <= i < entries(raw, "nodes"@).len() ==> cuttable(#[trigger] entries(raw, "nodes"@)[i])
}

fn to_text(s: Option<&str>) -> (r: Option<String>)
    ensures
        text::held(r) == text::read(s),
{
    match s {
        Some(t) => Some(t.to_owned()),
        None => None,
    }
}

fn read_network(raw: &Json) -> (r: MeshNetwork)
    ensures
        r@ == network(raw@),
{
    match raw.get("network") {
        Some(n) => MeshNetwork {
            name: to_text(n.str_at("name")),
            channel: n.u64_at("channel"),
            leader_router_id: n.u64_at("leader_router_id"),
            split: match n.array_at("partition_ids") {
                Some(p) => p.len() > 1,
                None => false,
            },
        },
        None => MeshNetwork { name: None, channel: None, leader_router_id: None, split: false },
    }
}

fn is_cuttable(n: &Json) -> (r: bool)
    ensures
        r == cuttable(n@),
{
    if n.str_at("id").is_none() || n.str_at("alias").is_some() || n.str_at("label").is_some() {
        return true;
    }
    match n.str_at("ext_address") {
        Some(e) => match text::cut(e, 4) {
            text::Cut::Torn => false,
            _ => true,
        },
        None => true,
    }
}

/// Whether no address of an output would be cut across a character.
pub fn is_all_cuttable(raw: &Json) -> (r: bool)
    ensures
        r == all_cuttable(raw@),
{
    let raw_nodes = match raw.array_at("nodes") {
        Some(v) => v,
        None => return true,
    };
    let ghost all = entries(raw@, "nodes"@);
    let mut i: usize = 0;
    while i < raw_nodes.len()
        invariant
            i <= raw_nodes.len(),
            all == entries(raw@, "nodes"@),
            all == json::views(raw_nodes@),
            forall|j: int| 0 <= j < i ==> cuttable(#[trigger] all[j]),
        decreases raw_nodes.len() - i,
    {
        if !is_cuttable(&raw_nodes[i]) {
            assert(!cuttable(all[i as int]));
            return false;
        }
        i += 1;
    }
    true
}

fn read_node(n: &Json, labels: Option<&Dict<String>>) -> (r: Option<MeshNode>)
    requires
        cuttable(n@),
    ensures
        match r {
            Some(v) => node(n@, dict::display_names(labels)) == Some(v@),
            None => node(n@, dict::display_names(labels)) is None,
        },
{
    let id = match n.str_at("id") {
        Some(id) => id,
        None => return None,
    };
    let (kind, name): (&'static str, String) = match (n.str_at("alias"), n.str_at("label")) {
        (Some(a), _) => ("ours", dict::display_name(labels, a).to_owned()),
        (None, Some(l)) => ("named", l.to_owned()),
        (None, None) => {
            let shown = match n.str_at("ext_address") {
                Some(e) => match text::cut(e, 4) {
                    text::Cut::Clean(t) => t,
                    _ => e.to_owned(),
                },
                None => id.to_owned(),
            };
            ("anonymous", shown)
        },
    };
    let role = match n.str_at("role") {
        Some(r) => r,
        None => "unknown",
    };
    Some(
        MeshNode {
            id: id.to_owned(),
            name,
            kind: kind.to_owned(),
            role: role.to_owned(),
            is_leader: text::same(role, "leader"),
            probed: n.bool_at("probed"),
            error_kind: match n.get("probe_error") {
                Some(e) => to_text(e.str_at("kind")),
                None => None,
            },
        },
    )
}

fn is_unidentified(n: &Json) -> (r: bool)
    ensures
        r == unidentified(n@),
{
    n.str_at("alias").is_some() && match n.str_at("id") {
        Some(id) => text::starts_with(id, "node:"),
        None => false,
    }
}

fn read_nodes(raw_nodes: &Vec<Json>, labels: Option<&Dict<String>>) -> (r: (Vec<MeshNode>, usize))
    requires
        forall|i: int| 0 <= i < raw_nodes@.len() ==> cuttable(#[trigger] json::views(raw_nodes@)[i]),
    ensures
        node_models(r.0@) == nodes_in(json::views(raw_nodes@), dict::display_names(labels)),
        r.1 == unidentified_in(json::views(raw_nodes@)),
{
    let ghost all = json::views(raw_nodes@);
    let ghost names = dict::display_names(labels);
    let ghost rule = |n: JsonView| node(n, names);
    let mut nodes: Vec<MeshNode> = Vec::new();
    let mut unnamed: usize = 0;
    let mut i: usize = 0;
    assert(all.take(0).filter_map(rule) =~= Seq::<NodeModel>::empty());
    assert(node_models(nodes@) =~= Seq::<NodeModel>::empty());
    while i < raw_nodes.len()
        invariant
            i <= raw_nodes.len(),
            all == json::views(raw_nodes@),
            names == dict::display_names(labels),
            rule == (|n: JsonView| node(n, names)),
            forall|i: int|
                0 <= i < raw_nodes@.len() ==> cuttable(#[trigger] json::views(raw_nodes@)[i]),
            node_models(nodes@) == all.take(i as int).filter_map(rule),
            unnamed <= i,
            unnamed == unidentified_in(all.take(i as int)),
        decreases raw_nodes.len() - i,
    {
        let n = &raw_nodes[i];
        let ghost done = nodes@;
        proof {
            all.lemma_filter_map_take_succ(rule, i as int);
            assert(all.take(i + 1).drop_last() =~= all.take(i as int));
            assert(all[i as int] == n@);
        }
        if let Some(v) = read_node(n, labels) {
            let ghost model = v@;
            nodes.push(v);
            assert(node_models(nodes@) =~= node_models(done) + seq![model]);
        } else {
            assert(node_models(done) + Seq::<NodeModel>::empty() =~= node_models(done));
        }
        if is_unidentified(n) {
            unnamed += 1;
        }
        i += 1;
    }
    assert(all.take(all.len() as int) =~= all);
    (nodes, unnamed)
}

fn is_known(nodes: &Vec<MeshNode>, id: &str) -> (r: bool)
    ensures
        r == known(node_models(nodes@), id@),
{
    let mut i: usize = 0;
    while i < nodes.len()
        invariant
            i <= nodes.len(),
            forall|j: int| 0 <= j < i ==> (#[trigger] node_models(nodes@)[j]).id != id@,
        decreases nodes.len() - i,
    {
        if text::same(nodes[i].id.as_str(), id) {
            assert(node_models(nodes@)[i as int].id == id@);
            return true;
        }
        i += 1;
    }
    false
}

fn read_seen(e: &Json, name: &str) -> (r: Option<MeshLink>)
    ensures
        seen(e@, name@) == match r {
            Some(l) => seq![l],
            None => Seq::<MeshLink>::empty(),
        },
{
    match e.get(name) {
        Some(v) => read_link(v),
        None => None,
    }
}

fn read_edge(e: &Json, nodes: &Vec<MeshNode>, t: &MeshThresholds) -> (r: Option<MeshEdge>)
    ensures
        match r {
            Some(v) => edge(e@, node_models(nodes@), *t) == Some(v@),
            None => edge(e@, node_models(nodes@), *t) is None,
        },
{
    let (a, b) = match (e.str_at("a"), e.str_at("b")) {
        (Some(a), Some(b)) => (a, b),
        _ => return None,
    };
    if !is_known(nodes, a) || !is_known(nodes, b) {
        return None;
    }
    let mut views: Vec<MeshLink> = Vec::new();
    if let Some(l) = read_seen(e, "a_sees_b") {
        views.push(l);
    }
    if let Some(l) = read_seen(e, "b_sees_a") {
        views.push(l);
    }
    assert(views@ =~= seen(e@, "a_sees_b"@) + seen(e@, "b_sees_a"@));
    Some(
        match pick_worst(views.as_slice()) {
            Some(l) => MeshEdge {
                a: a.to_owned(),
                b: b.to_owned(),
                grade: grade_link(l, t).to_owned(),
                lqi: l.lqi,
                rssi: l.rssi,
                fer: l.fer,
            },
            None => MeshEdge {
                a: a.to_owned(),
                b: b.to_owned(),
                grade: "route_only".to_owned(),
                lqi: None,
                rssi: None,
                fer: None,
            },
        },
    )
}

fn read_edges(raw_edges: &Vec<Json>, nodes: &Vec<MeshNode>, t: &MeshThresholds) -> (r: Vec<
    MeshEdge,
>)
    ensures
        edge_models(r@) == edges_in(json::views(raw_edges@), node_models(nodes@), *t),
{
    let ghost all = json::views(raw_edges@);
    let ghost models = node_models(nodes@);
    let ghost rule = |e: JsonView| edge(e, models, *t);
    let mut edges: Vec<MeshEdge> = Vec::new();
    let mut i: usize = 0;
    assert(all.take(0).filter_map(rule) =~= Seq::<EdgeModel>::empty());
    assert(edge_models(edges@) =~= Seq::<EdgeModel>::empty());
    while i < raw_edges.len()
        invariant
            i <= raw_edges.len(),
            all == json::views(raw_edges@),
            models == node_models(nodes@),
            rule == (|e: JsonView| edge(e, models, *t)),
            edge_models(edges@) == all.take(i as int).filter_map(rule),
        decreases raw_edges.len() - i,
    {
        let ghost done = edges@;
        proof {
            all.lemma_filter_map_take_succ(rule, i as int);
            assert(all[i as int] == raw_edges@[i as int]@);
        }
        if let Some(v) = read_edge(&raw_edges[i], nodes, t) {
            let ghost model = v@;
            edges.push(v);
            assert(edge_models(edges@) =~= edge_models(done) + seq![model]);
        } else {
            assert(edge_models(done) + Seq::<EdgeModel>::empty() =~= edge_models(done));
        }
        i += 1;
    }
    assert(all.take(all.len() as int) =~= all);
    edges
}

/// The mesh that an output describes: participants with a key, links between
/// participants, each with the measurements of the end that sees it worse.
pub fn normalize_mesh(
    raw: &Json,
    thresholds: &MeshThresholds,
    labels: Option<&Dict<String>>,
) -> (r: MeshView)
    requires
        all_cuttable(raw@),
    ensures
        r@ == mesh(raw@, *thresholds, dict::display_names(labels)),
{
    let ghost names = dict::display_names(labels);
    let none: Vec<Json> = Vec::new();
    assert(json::views(none@) =~= Seq::<JsonView>::empty());
    let raw_nodes = match raw.array_at("nodes") {
        Some(v) => v,
        None => &none,
    };
    let raw_edges = match raw.array_at("edges") {
        Some(v) => v,
        None => &none,
    };
    assert(json::views(raw_nodes@) == entries(raw@, "nodes"@));
    assert(json::views(raw_edges@) == entries(raw@, "edges"@));
    let (nodes, unidentified_count) = read_nodes(raw_nodes, labels);
    let edges = read_edges(raw_edges, &nodes, thresholds);
    MeshView {
        network: read_network(raw),
        nodes,
        edges,
        unidentified_count,
        fetched_at: to_text(raw.str_at("timestamp")),
    }
}

/// The measurement picked for a link is one of those given. Where one of them
/// has a link quality, so has the picked one, and none of those that have one
/// is worse.
pub proof fn lemma_worst_view(views: Seq<MeshLink>)
    ensures
        worst_view(views) matches Some(w) ==> views.contains(w),
        worst_view(views) is None <==> forall|i: int|
            0 <= i < views.len() ==> (#[trigger] views[i]).lqi is None && views[i].fer is None,
        (exists|i: int| 0 <= i < views.len() && (#[trigger] views[i]).lqi is Some) ==> (worst_view(
            views,
        ) matches Some(w) && w.lqi is Some),
        worst_view(views) matches Some(w) ==> w.lqi is Some ==> forall|i: int|
            0 <= i < views.len() && (#[trigger] views[i]).lqi is Some ==> !worse(views[i], w),
        worst_view(views) matches Some(w) ==> w.lqi is None ==> forall|i: int|
            0 <= i < views.len() && (#[trigger] views[i]).fer is Some ==> views[i].fer->0
                <= w.fer->0,
{
    lemma_worst_by_lqi(views);
    lemma_worst_by_fer(views);
}

proof fn lemma_worst_by_lqi(views: Seq<MeshLink>)
    ensures
        match worst_by_lqi(views) {
            Some(w) => {
                &&& views.contains(w)
                &&& w.lqi is Some
                &&& forall|i: int|
                    0 <= i < views.len() && (#[trigger] views[i]).lqi is Some ==> !worse(
                        views[i],
                        w,
                    )
            },
            None => forall|i: int| 0 <= i < views.len() ==> (#[trigger] views[i]).lqi is None,
        },
    decreases views.len(),
{
    if views.len() > 0 {
        let front = views.drop_last();
        lemma_worst_by_lqi(front);
        assert forall|i: int| 0 <= i < front.len() implies front[i] == #[trigger] views[i] by {}
        match worst_by_lqi(front) {
            Some(c) => {
                let i = choose|i: int| 0 <= i < front.len() && front[i] == c;
                assert(views[i] == c);
            },
            None => {},
        }
        assert(views[views.len() - 1] == views.last());
    }
}

proof fn lemma_worst_by_fer(views: Seq<MeshLink>)
    ensures
        match worst_by_fer(views) {
            Some(w) => {
                &&& views.contains(w)
                &&& w.fer is Some
                &&& forall|i: int|
                    0 <= i < views.len() && (#[trigger] views[i]).fer is Some ==> views[i].fer->0
                        <= w.fer->0
            },
            None => forall|i: int| 0 <= i < views.len() ==> (#[trigger] views[i]).fer is None,
        },
    decreases views.len(),
{
    if views.len() > 0 {
        let front = views.drop_last();
        lemma_worst_by_fer(front);
        assert forall|i: int| 0 <= i < front.len() implies front[i] == #[trigger] views[i] by {}
        match worst_by_fer(front) {
            Some(c) => {
                let i = choose|i: int| 0 <= i < front.len() && front[i] == c;
                assert(views[i] == c);
            },
            None => {},
        }
        assert(views[views.len() - 1] == views.last());
    }
}

/// The grades differ from each other.
proof fn lemma_grades_differ()
    ensures
        "good"@ != "fair"@ && "good"@ != "weak"@ && "good"@ != "bad"@ && "fair"@ != "weak"@
            && "fair"@ != "bad"@ && "weak"@ != "bad"@,
        "route_only"@ != "fair"@ && "route_only"@ != "weak"@ && "route_only"@ != "bad"@,
{
    reveal_strlit("good");
    reveal_strlit("fair");
    reveal_strlit("weak");
    reveal_strlit("bad");
    reveal_strlit("route_only");
    assert("good"@[0] == 'g' && "fair"@[0] == 'f' && "weak"@[0] == 'w' && "bad"@[0] == 'b'
        && "route_only"@[0] == 'r');
}

/// The first of two frame error rates is no higher than the second; a missing
/// one is below any other.
pub open spec fn no_more_errors(a: Option<u8>, b: Option<u8>) -> bool {
    match (a, b) {
        (None, _) => true,
        (Some(_), None) => false,
        (Some(x), Some(y)) => x <= y,
    }
}

/// With the same link quality, or with none, more frame errors never give a
/// better grade.
pub proof fn lemma_errors_only_worsen(l: MeshLink, m: MeshLink, t: MeshThresholds)
    requires
        l.lqi == m.lqi,
        no_more_errors(l.fer, m.fer),
    ensures
        badness(grade(l, t)) <= badness(grade(m, t)),
{
    lemma_grades_differ();
}

/// With the same frame errors, a lower link quality never gives a better
/// grade.
pub proof fn lemma_lower_quality_is_no_better(l: MeshLink, m: MeshLink, t: MeshThresholds)
    requires
        l.lqi is Some,
        m.lqi is Some,
        l.lqi->0 <= m.lqi->0,
        l.fer == m.fer,
    ensures
        badness(grade(l, t)) >= badness(grade(m, t)),
{
    lemma_grades_differ();
}

/// Every link of a mesh connects participants of that mesh.
pub proof fn lemma_edges_are_known(
    raw: JsonView,
    t: MeshThresholds,
    labels: Map<Seq<char>, Seq<char>>,
)
    ensures
        forall|i: int|
            0 <= i < mesh(raw, t, labels).edges.len() ==> known(
                mesh(raw, t, labels).nodes,
                (#[trigger] mesh(raw, t, labels).edges[i]).a,
            ) && known(mesh(raw, t, labels).nodes, mesh(raw, t, labels).edges[i].b),
{
    let nodes = mesh(raw, t, labels).nodes;
    let raw_edges = entries(raw, "edges"@);
    let rule = |e: JsonView| edge(e, nodes, t);
    let edges = raw_edges.filter_map(rule);
    assert(mesh(raw, t, labels).edges == edges);
    assert forall|i: int| 0 <= i < edges.len() implies known(nodes, (#[trigger] edges[i]).a)
        && known(nodes, edges[i].b) by {
        assert(edges.contains(edges[i]));
        raw_edges.lemma_filter_map_contains(rule, edges[i]);
    }
}

/// Which end is listed first does not matter: the same link quality, the same
/// frame errors and so the same grade come out.
pub proof fn lemma_either_end_first(x: MeshLink, y: MeshLink, t: MeshThresholds)
    ensures
        match (worst_view(seq![x, y]), worst_view(seq![y, x])) {
            (Some(v), Some(w)) => v.lqi == w.lqi && v.fer == w.fer && grade(v, t) == grade(w, t),
            (None, None) => true,
            _ => false,
        },
{
    reveal_with_fuel(worst_by_lqi, 3);
    reveal_with_fuel(worst_by_fer, 3);
    assert(seq![x, y].drop_last() =~= seq![x]);
    assert(seq![y, x].drop_last() =~= seq![y]);
    assert(seq![x].drop_last() =~= Seq::<MeshLink>::empty());
    assert(seq![y].drop_last() =~= Seq::<MeshLink>::empty());
}

/// Nothing is made up: the measurements of a link are those of one of its two
/// ends, or all absent.
pub proof fn lemma_measurements_are_read(e: JsonView, nodes: Seq<NodeModel>, t: MeshThresholds)
    requires
        edge(e, nodes, t) is Some,
    ensures
        ({
            let m = edge(e, nodes, t)->0;
            let l = MeshLink { lqi: m.lqi, rssi: m.rssi, fer: m.fer };
            ||| (l.lqi is None && l.rssi is None && l.fer is None)
            ||| (e.field("a_sees_b"@) matches Some(v) && link(v) == Some(l))
            ||| (e.field("b_sees_a"@) matches Some(v) && link(v) == Some(l))
        }),
{
    lemma_worst_view(seen(e, "a_sees_b"@) + seen(e, "b_sees_a"@));
}

} // verus!
