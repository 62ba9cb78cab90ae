//! The form in which each answer is written: which members it has, in which
//! order, and which of them are left out.

use vstd::prelude::*;

use crate::catalog::{DeviceInfo, GraphInfo, GroupInfo, PresetInfo};
use crate::charts::{GraphView, HealthView};
use crate::config::{Face, Kind};
use crate::graph::{GraphSeries, SeriesModel};
use crate::groups::GroupMemberResult;
use crate::health::{HealthItem, ItemModel};
use crate::json::Double;
use crate::mesh::{EdgeModel, MeshEdge, MeshNetwork, MeshNode, MeshView, NetworkModel, NodeModel};
use crate::mesh_job::MeshStatusView;
use crate::push::{EventModel, StateEvent};
use crate::shape;
use crate::shape::{Fields, Members, Shape, ShapeModel};
use crate::state::State;
use crate::status::{ActionView, LightActionView, LightStateModel, LightStateView, StateModel, StateView};
use crate::subprocess::ExecOutcome;
use crate::text;

verus! {

/// What can be answered.
pub trait Answer {
    /// What the answer says.
    spec fn says(&self) -> ShapeModel;

    /// The answer.
    fn shape(&self) -> (s: Shape)
        ensures
            s@ == self.says(),
    ;
}

/// What a list of answers says.
pub open spec fn list_says<T: Answer>(list: Seq<T>) -> ShapeModel {
    ShapeModel::List(Seq::new(list.len(), |i: int| list[i].says()))
}

/// A list of answers.
pub fn list_shape<T: Answer>(list: &Vec<T>) -> (s: Shape)
    ensures
        s@ == list_says(list@),
{
    broadcast use crate::shape::lemma_shape_view;

    let ghost all = Seq::new(list@.len(), |i: int| list@[i].says());
    let mut out: Vec<Shape> = Vec::new();
    let mut i: usize = 0;
    while i < list.len()
        invariant
            i <= list.len(),
            all == Seq::new(list@.len(), |i: int| list@[i].says()),
            shape::models(out@) == all.take(i as int),
        decreases list.len() - i,
    {
        let ghost done = out@;
        out.push(list[i].shape());
        assert(shape::models(out@) =~= shape::models(done).push(all[i as int]));
        assert(all.take(i + 1) =~= all.take(i as int).push(all[i as int]));
        i += 1;
    }
    assert(all.take(all.len() as int) =~= all);
    Shape::List(out)
}

/// The word for a state.
pub open spec fn state_word(s: State) -> Seq<char> {
    match s {
        State::Open => "open"@,
        State::Closed => "closed"@,
        State::Opening => "opening"@,
        State::Closing => "closing"@,
        State::Stopped => "stopped"@,
        State::On => "on"@,
        State::Off => "off"@,
        State::Unknown => "unknown"@,
    }
}

impl State {
    /// The word for the state.
    pub fn word(self) -> (w: &'static str)
        ensures
            w@ == state_word(self),
    {
        match self {
            State::Open => "open",
            State::Closed => "closed",
            State::Opening => "opening",
            State::Closing => "closing",
            State::Stopped => "stopped",
            State::On => "on",
            State::Off => "off",
            State::Unknown => "unknown",
        }
    }
}

/// The word for an outcome.
pub open spec fn outcome_word(o: ExecOutcome) -> Seq<char> {
    match o {
        ExecOutcome::Success => "success"@,
        ExecOutcome::Timeout => "timeout"@,
        ExecOutcome::Rejected => "rejected"@,
        ExecOutcome::NetworkError => "network_error"@,
        ExecOutcome::Failed => "failed"@,
        ExecOutcome::SpawnFailed => "spawn_failed"@,
    }
}

impl ExecOutcome {
    /// The word for the outcome.
    pub fn word(self) -> (w: &'static str)
        ensures
            w@ == outcome_word(self),
    {
        match self {
            ExecOutcome::Success => "success",
            ExecOutcome::Timeout => "timeout",
            ExecOutcome::Rejected => "rejected",
            ExecOutcome::NetworkError => "network_error",
            ExecOutcome::Failed => "failed",
            ExecOutcome::SpawnFailed => "spawn_failed",
        }
    }
}

/// The word for a kind.
pub open spec fn kind_word(k: Kind) -> Seq<char> {
    match k {
        Kind::Shutter => "shutter"@,
        Kind::Light => "light"@,
        Kind::Switch => "switch"@,
    }
}

impl Kind {
    /// The word for the kind.
    pub fn word(self) -> (w: &'static str)
        ensures
            w@ == kind_word(self),
    {
        match self {
            Kind::Shutter => "shutter",
            Kind::Light => "light",
            Kind::Switch => "switch",
        }
    }
}

/// The word for a face.
pub open spec fn face_word(f: Face) -> Seq<char> {
    match f {
        Face::Light => "light"@,
    }
}

impl Face {
    /// The word for the face.
    pub fn word(self) -> (w: &'static str)
        ensures
            w@ == face_word(self),
    {
        match self {
            Face::Light => "light",
        }
    }
}

/// No two outcomes share a word.
pub proof fn lemma_outcome_words(a: ExecOutcome, b: ExecOutcome)
    ensures
        outcome_word(a) == outcome_word(b) ==> a == b,
{
    reveal_strlit("success");
    reveal_strlit("timeout");
    reveal_strlit("rejected");
    reveal_strlit("network_error");
    reveal_strlit("failed");
    reveal_strlit("spawn_failed");
    assert("success"@[0] == 's' && "timeout"@[0] == 't');
    if outcome_word(a) == outcome_word(b) {
        assert(outcome_word(a).len() == outcome_word(b).len());
        assert(outcome_word(a)[0] == outcome_word(b)[0]);
    }
}

/// No two states share a word.
pub proof fn lemma_state_words(a: State, b: State)
    ensures
        state_word(a) == state_word(b) ==> a == b,
{
    reveal_strlit("open");
    reveal_strlit("closed");
    reveal_strlit("opening");
    reveal_strlit("closing");
    reveal_strlit("stopped");
    reveal_strlit("on");
    reveal_strlit("off");
    reveal_strlit("unknown");
    assert("opening"@[0] == 'o' && "closing"@[0] == 'c' && "stopped"@[0] == 's' && "unknown"@[0]
        == 'u');
    if state_word(a) == state_word(b) {
        assert(state_word(a).len() == state_word(b).len());
        assert(state_word(a)[0] == state_word(b)[0]);
    }
}

impl Answer for PresetInfo {
    open spec fn says(&self) -> ShapeModel {
        ShapeModel::Record(
            seq![
                ("name"@, ShapeModel::Text(self.name@)),
                ("label"@, ShapeModel::Text(self.label@)),
                ("color"@, shape::or_null(shape::text_model(text::held(self.color)))),
            ],
        )
    }

    fn shape(&self) -> (s: Shape) {
        let mut f = Fields::new();
        f.put_text("name", self.name.as_str());
        f.put_text("label", self.label.as_str());
        f.put("color", shape::null_or(shape::text_of(&self.color)));
        assert(f@ =~= self.says()->Record_0);
        f.finish()
    }
}

/// The face of a switch, where it has one.
pub open spec fn face_model(f: Option<Face>) -> Option<ShapeModel> {
    match f {
        Some(f) => Some(ShapeModel::Text(face_word(f))),
        None => None,
    }
}

/// The members of a card, where it has some.
pub open spec fn members_model(members: Seq<Seq<char>>) -> Option<ShapeModel> {
    if members.len() == 0 {
        None
    } else {
        Some(shape::texts_model(members))
    }
}

impl Answer for DeviceInfo {
    open spec fn says(&self) -> ShapeModel {
        ShapeModel::Record(
            seq![
                ("name"@, ShapeModel::Text(self.name@)),
                ("label"@, ShapeModel::Text(self.label@)),
                ("kind"@, ShapeModel::Text(kind_word(self.kind))),
                ("stop"@, ShapeModel::Flag(self.stop)),
                ("color_supported"@, ShapeModel::Flag(self.color_supported)),
                ("brightness_supported"@, ShapeModel::Flag(self.brightness_supported)),
                ("presets"@, list_says(self.presets@)),
                ("face"@, shape::or_null(face_model(self.face))),
            ] + shape::optional("members"@, members_model(text::texts(self.members@))),
        )
    }

    fn shape(&self) -> (s: Shape) {
        let mut f = Fields::new();
        f.put_text("name", self.name.as_str());
        f.put_text("label", self.label.as_str());
        f.put_text("kind", self.kind.word());
        f.put_flag("stop", self.stop);
        f.put_flag("color_supported", self.color_supported);
        f.put_flag("brightness_supported", self.brightness_supported);
        f.put("presets", list_shape(&self.presets));
        let face = match self.face {
            Some(face) => Some(Shape::Text(face.word().to_owned())),
            None => None,
        };
        f.put("face", shape::null_or(face));
        let members = if self.members.len() == 0 {
            None
        } else {
            Some(shape::texts_of(&self.members))
        };
        f.put_some("members", members);
        assert(f@ =~= self.says()->Record_0);
        f.finish()
    }
}

impl Answer for GroupInfo {
    open spec fn says(&self) -> ShapeModel {
        ShapeModel::Record(
            seq![
                ("name"@, ShapeModel::Text(self.name@)),
                ("label"@, ShapeModel::Text(self.label@)),
                ("members"@, shape::texts_model(text::texts(self.members@))),
                ("stop"@, ShapeModel::Flag(self.stop)),
            ],
        )
    }

    fn shape(&self) -> (s: Shape) {
        let mut f = Fields::new();
        f.put_text("name", self.name.as_str());
        f.put_text("label", self.label.as_str());
        f.put("members", shape::texts_of(&self.members));
        f.put_flag("stop", self.stop);
        assert(f@ =~= self.says()->Record_0);
        f.finish()
    }
}

impl Answer for GraphInfo {
    open spec fn says(&self) -> ShapeModel {
        ShapeModel::Record(
            seq![
                ("name"@, ShapeModel::Text(self.name@)),
                ("label"@, ShapeModel::Text(self.label@)),
            ],
        )
    }

    fn shape(&self) -> (s: Shape) {
        let mut f = Fields::new();
        f.put_text("name", self.name.as_str());
        f.put_text("label", self.label.as_str());
        assert(f@ =~= self.says()->Record_0);
        f.finish()
    }
}

/// The members that tell the state of a device.
pub open spec fn state_members(m: StateModel) -> Members {
    seq![
        ("state"@, ShapeModel::Text(state_word(m.state))),
        ("exec"@, ShapeModel::Text(outcome_word(m.outcome))),
        (
            "raw"@,
            match m.raw {
                Some(j) => ShapeModel::Raw(j),
                None => ShapeModel::Null,
            },
        ),
    ]
}

fn state_fields(v: &StateView) -> (f: Fields)
    ensures
        f@ == state_members(v@),
{
    let mut f = Fields::new();
    f.put_text("state", v.state.word());
    f.put_text("exec", v.outcome.word());
    let raw = match &v.raw {
        Some(j) => Shape::Raw(j.clone()),
        None => Shape::Null,
    };
    f.put("raw", raw);
    assert(f@ =~= state_members(v@));
    f
}

impl Answer for StateView {
    open spec fn says(&self) -> ShapeModel {
        ShapeModel::Record(state_members(self@))
    }

    fn shape(&self) -> (s: Shape) {
        state_fields(self).finish()
    }
}

impl Answer for ActionView {
    open spec fn says(&self) -> ShapeModel {
        ShapeModel::Record(
            seq![("action"@, ShapeModel::Text(outcome_word(self.action)))] + state_members(
                self.state@,
            ),
        )
    }

    fn shape(&self) -> (s: Shape) {
        let mut f = Fields::new();
        f.put_text("action", self.action.word());
        f.put_all(state_fields(&self.state));
        assert(f@ =~= self.says()->Record_0);
        f.finish()
    }
}

impl Answer for LightActionView {
    open spec fn says(&self) -> ShapeModel {
        ShapeModel::Record(seq![("action"@, ShapeModel::Text(outcome_word(self.action)))])
    }

    fn shape(&self) -> (s: Shape) {
        let mut f = Fields::new();
        f.put_text("action", self.action.word());
        assert(f@ =~= self.says()->Record_0);
        f.finish()
    }
}

/// The members that tell the state of a pushed light. The outcome is left out
/// where no command was run.
pub open spec fn light_members(m: LightStateModel) -> Members {
    seq![("state"@, ShapeModel::Text(state_word(m.state)))] + shape::optional(
        "exec"@,
        match m.outcome {
            Some(o) => Some(ShapeModel::Text(outcome_word(o))),
            None => None,
        },
    ) + seq![
        (
            "raw"@,
            match m.raw {
                Some(j) => ShapeModel::Raw(j),
                None => ShapeModel::Null,
            },
        ),
        ("source"@, ShapeModel::Text(m.source)),
        ("stale"@, ShapeModel::Flag(m.stale)),
    ]
}

impl Answer for LightStateView {
    open spec fn says(&self) -> ShapeModel {
        ShapeModel::Record(light_members(self@))
    }

    fn shape(&self) -> (s: Shape) {
        let mut f = Fields::new();
        f.put_text("state", self.state.word());
        let outcome = match self.outcome {
            Some(o) => Some(Shape::Text(o.word().to_owned())),
            None => None,
        };
        f.put_some("exec", outcome);
        let raw = match &self.raw {
            Some(j) => Shape::Raw(j.clone()),
            None => Shape::Null,
        };
        f.put("raw", raw);
        f.put_text("source", self.source);
        f.put_flag("stale", self.stale);
        assert(f@ =~= light_members(self@));
        f.finish()
    }
}

impl Answer for GroupMemberResult {
    open spec fn says(&self) -> ShapeModel {
        ShapeModel::Record(
            seq![
                ("name"@, ShapeModel::Text(self.name@)),
                ("skipped"@, ShapeModel::Flag(self.skipped)),
                ("action"@, ShapeModel::Text(outcome_word(self.result.action))),
            ] + state_members(self.result.state@),
        )
    }

    fn shape(&self) -> (s: Shape) {
        let mut f = Fields::new();
        f.put_text("name", self.name.as_str());
        f.put_flag("skipped", self.skipped);
        f.put_text("action", self.result.action.word());
        f.put_all(state_fields(&self.result.state));
        assert(f@ =~= self.says()->Record_0);
        f.finish()
    }
}

/// What a change that is told says.
pub open spec fn event_members(m: EventModel) -> Members {
    seq![
        ("device"@, ShapeModel::Text(m.device)),
        ("state"@, ShapeModel::Text(state_word(m.state))),
        ("source"@, ShapeModel::Text(m.source)),
        ("stale"@, ShapeModel::Flag(m.stale)),
    ]
}

impl Answer for StateEvent {
    open spec fn says(&self) -> ShapeModel {
        ShapeModel::Record(event_members(self@))
    }

    fn shape(&self) -> (s: Shape) {
        let mut f = Fields::new();
        f.put_text("device", self.device.as_str());
        f.put_text("state", self.state.word());
        f.put_text("source", self.source);
        f.put_flag("stale", self.stale);
        assert(f@ =~= event_members(self@));
        f.finish()
    }
}

/// A point is written as a list of its time and its value.
pub open spec fn point_model(p: (Seq<char>, Double)) -> ShapeModel {
    ShapeModel::List(seq![ShapeModel::Text(p.0), ShapeModel::Real(p.1)])
}

/// What a series says.
pub open spec fn series_members(m: SeriesModel) -> Members {
    seq![
        ("label"@, ShapeModel::Text(m.label)),
        (
            "points"@,
            ShapeModel::List(Seq::new(m.points.len(), |i: int| point_model(m.points[i]))),
        ),
    ]
}

fn points_shape(points: &Vec<(String, Double)>) -> (s: Shape)
    ensures
        s@ == ShapeModel::List(
            Seq::new(
                points@.len(),
                |i: int| point_model(crate::graph::points(points@)[i]),
            ),
        ),
{
    broadcast use crate::shape::lemma_shape_view;

    let ghost list = crate::graph::points(points@);
    let ghost all = Seq::new(points@.len(), |i: int| point_model(list[i]));
    let mut out: Vec<Shape> = Vec::new();
    let mut i: usize = 0;
    while i < points.len()
        invariant
            i <= points.len(),
            list == crate::graph::points(points@),
            all == Seq::new(points@.len(), |i: int| point_model(list[i])),
            shape::models(out@) == all.take(i as int),
        decreases points.len() - i,
    {
        let ghost done = out@;
        let mut pair: Vec<Shape> = Vec::new();
        pair.push(Shape::Text(points[i].0.clone()));
        pair.push(Shape::Real(points[i].1));
        assert(shape::models(pair@) =~= point_model(list[i as int])->List_0);
        let point = Shape::List(pair);
        proof {
            shape::lemma_shape_view(point);
        }
        assert(point@ == point_model(list[i as int]));
        out.push(point);
        assert(shape::models(out@) =~= shape::models(done).push(all[i as int]));
        assert(all.take(i + 1) =~= all.take(i as int).push(all[i as int]));
        i += 1;
    }
    assert(all.take(all.len() as int) =~= all);
    Shape::List(out)
}

impl Answer for GraphSeries {
    open spec fn says(&self) -> ShapeModel {
        ShapeModel::Record(series_members(self@))
    }

    fn shape(&self) -> (s: Shape) {
        let mut f = Fields::new();
        f.put_text("label", self.label.as_str());
        f.put("points", points_shape(&self.points));
        assert(f@ =~= series_members(self@));
        f.finish()
    }
}

impl Answer for GraphView {
    open spec fn says(&self) -> ShapeModel {
        ShapeModel::Record(
            seq![
                ("name"@, ShapeModel::Text(self.name@)),
                ("period"@, ShapeModel::Text(self.period@)),
                ("unit"@, ShapeModel::Text(self.unit@)),
            ] + shape::optional("chart"@, shape::text_model(text::held(self.chart)))
                + shape::optional("summary"@, shape::real_model(self.summary)) + shape::optional(
                "summary_unit"@,
                shape::text_model(text::held(self.summary_unit)),
            ) + seq![("series"@, list_says(self.series@))],
        )
    }

    fn shape(&self) -> (s: Shape) {
        let mut f = Fields::new();
        f.put_text("name", self.name.as_str());
        f.put_text("period", self.period.as_str());
        f.put_text("unit", self.unit.as_str());
        f.put_some("chart", shape::text_of(&self.chart));
        f.put_some("summary", shape::real_of(self.summary));
        f.put_some("summary_unit", shape::text_of(&self.summary_unit));
        f.put("series", list_shape(&self.series));
        assert(f@ =~= self.says()->Record_0);
        f.finish()
    }
}

/// What a metric says. A metric that is no longer collected has no value and
/// no time, and none is written.
pub open spec fn item_members(m: ItemModel) -> Members {
    seq![("label"@, ShapeModel::Text(m.label))] + shape::optional(
        "value"@,
        shape::real_model(m.value),
    ) + shape::optional("ts"@, shape::text_model(m.ts)) + seq![
        ("level"@, ShapeModel::Text(m.level)),
    ]
}

impl Answer for HealthItem {
    open spec fn says(&self) -> ShapeModel {
        ShapeModel::Record(item_members(self@))
    }

    fn shape(&self) -> (s: Shape) {
        let mut f = Fields::new();
        f.put_text("label", self.label.as_str());
        f.put_some("value", shape::real_of(self.value));
        f.put_some("ts", shape::text_of(&self.ts));
        f.put_text("level", self.level.as_str());
        assert(f@ =~= item_members(self@));
        f.finish()
    }
}

impl Answer for HealthView {
    open spec fn says(&self) -> ShapeModel {
        ShapeModel::Record(
            shape::optional("label"@, shape::text_model(text::held(self.label))) + seq![
                ("worst"@, ShapeModel::Text(self.report.worst@)),
                ("items"@, list_says(self.report.items@)),
            ],
        )
    }

    fn shape(&self) -> (s: Shape) {
        let mut f = Fields::new();
        f.put_some("label", shape::text_of(&self.label));
        f.put_text("worst", self.report.worst.as_str());
        f.put("items", list_shape(&self.report.items));
        assert(f@ =~= self.says()->Record_0);
        f.finish()
    }
}

/// What the description of a network says.
pub open spec fn network_members(m: NetworkModel) -> Members {
    seq![
        ("name"@, shape::or_null(shape::text_model(m.name))),
        ("channel"@, shape::or_null(shape::count_model(m.channel))),
        ("leader_router_id"@, shape::or_null(shape::count_model(m.leader_router_id))),
        ("split"@, ShapeModel::Flag(m.split)),
    ]
}

impl Answer for MeshNetwork {
    open spec fn says(&self) -> ShapeModel {
        ShapeModel::Record(network_members(self@))
    }

    fn shape(&self) -> (s: Shape) {
        let mut f = Fields::new();
        f.put("name", shape::null_or(shape::text_of(&self.name)));
        f.put("channel", shape::null_or(shape::count_of(self.channel)));
        f.put("leader_router_id", shape::null_or(shape::count_of(self.leader_router_id)));
        f.put_flag("split", self.split);
        assert(f@ =~= network_members(self@));
        f.finish()
    }
}

/// What the description of a participant says.
pub open spec fn node_members(m: NodeModel) -> Members {
    seq![
        ("id"@, ShapeModel::Text(m.id)),
        ("name"@, ShapeModel::Text(m.name)),
        ("kind"@, ShapeModel::Text(m.kind)),
        ("role"@, ShapeModel::Text(m.role)),
        ("is_leader"@, ShapeModel::Flag(m.is_leader)),
    ] + shape::optional(
        "probed"@,
        match m.probed {
            Some(b) => Some(ShapeModel::Flag(b)),
            None => None,
        },
    ) + shape::optional("error_kind"@, shape::text_model(m.error_kind))
}

impl Answer for MeshNode {
    open spec fn says(&self) -> ShapeModel {
        ShapeModel::Record(node_members(self@))
    }

    fn shape(&self) -> (s: Shape) {
        let mut f = Fields::new();
        f.put_text("id", self.id.as_str());
        f.put_text("name", self.name.as_str());
        f.put_text("kind", self.kind.as_str());
        f.put_text("role", self.role.as_str());
        f.put_flag("is_leader", self.is_leader);
        let probed = match self.probed {
            Some(b) => Some(Shape::Flag(b)),
            None => None,
        };
        f.put_some("probed", probed);
        f.put_some("error_kind", shape::text_of(&self.error_kind));
        assert(f@ =~= node_members(self@));
        f.finish()
    }
}

/// A measurement of eight bits, where there is one.
pub open spec fn byte_model(n: Option<u8>) -> Option<ShapeModel> {
    match n {
        Some(n) => Some(ShapeModel::Count(n as u64)),
        None => None,
    }
}

fn byte_of(n: Option<u8>) -> (r: Option<Shape>)
    ensures
        shape::given(r) == byte_model(n),
{
    match n {
        Some(n) => Some(Shape::Count(n as u64)),
        None => None,
    }
}

/// What the description of a link says. What was not measured is not written.
pub open spec fn edge_members(m: EdgeModel) -> Members {
    seq![
        ("a"@, ShapeModel::Text(m.a)),
        ("b"@, ShapeModel::Text(m.b)),
        ("grade"@, ShapeModel::Text(m.grade)),
    ] + shape::optional("lqi"@, byte_model(m.lqi)) + shape::optional(
        "rssi"@,
        match m.rssi {
            Some(n) => Some(ShapeModel::Signed(n)),
            None => None,
        },
    ) + shape::optional("fer"@, byte_model(m.fer))
}

impl Answer for MeshEdge {
    open spec fn says(&self) -> ShapeModel {
        ShapeModel::Record(edge_members(self@))
    }

    fn shape(&self) -> (s: Shape) {
        let mut f = Fields::new();
        f.put_text("a", self.a.as_str());
        f.put_text("b", self.b.as_str());
        f.put_text("grade", self.grade.as_str());
        f.put_some("lqi", byte_of(self.lqi));
        let rssi = match self.rssi {
            Some(n) => Some(Shape::Signed(n)),
            None => None,
        };
        f.put_some("rssi", rssi);
        f.put_some("fer", byte_of(self.fer));
        assert(f@ =~= edge_members(self@));
        f.finish()
    }
}

/// What the description of a mesh says.
pub open spec fn mesh_members(v: MeshView) -> Members {
    seq![
        ("network"@, v.network.says()),
        ("nodes"@, list_says(v.nodes@)),
        ("edges"@, list_says(v.edges@)),
        ("unidentified_count"@, ShapeModel::Count(v.unidentified_count as u64)),
        ("fetched_at"@, shape::or_null(shape::text_model(text::held(v.fetched_at)))),
    ]
}

impl Answer for MeshView {
    open spec fn says(&self) -> ShapeModel {
        ShapeModel::Record(mesh_members(*self))
    }

    fn shape(&self) -> (s: Shape) {
        let mut f = Fields::new();
        f.put("network", self.network.shape());
        f.put("nodes", list_shape(&self.nodes));
        f.put("edges", list_shape(&self.edges));
        f.put("unidentified_count", Shape::Count(self.unidentified_count as u64));
        f.put("fetched_at", shape::null_or(shape::text_of(&self.fetched_at)));
        assert(f@ =~= mesh_members(*self));
        f.finish()
    }
}

/// A borrowed text as an answer may hold it.
fn borrowed_text(t: Option<&str>) -> (r: Option<Shape>)
    ensures
        shape::given(r) == shape::text_model(text::read(t)),
{
    match t {
        Some(s) => Some(Shape::Text(s.to_owned())),
        None => None,
    }
}

impl<'a> Answer for MeshStatusView<'a> {
    open spec fn says(&self) -> ShapeModel {
        ShapeModel::Record(
            seq![("status"@, ShapeModel::Text(self.status@))] + shape::optional(
                "label"@,
                shape::text_model(text::read(self.label)),
            ) + seq![("stale"@, ShapeModel::Flag(self.stale))] + shape::optional(
                "age_ms"@,
                shape::count_model(self.age_ms),
            ) + shape::optional("elapsed_ms"@, shape::count_model(self.elapsed_ms))
                + shape::optional(
                "snapshot"@,
                match self.snapshot {
                    Some(v) => Some(v.says()),
                    None => None,
                },
            ) + shape::optional("error"@, shape::text_model(text::read(self.error))),
        )
    }

    fn shape(&self) -> (s: Shape) {
        let mut f = Fields::new();
        f.put_text("status", self.status);
        f.put_some("label", borrowed_text(self.label));
        f.put_flag("stale", self.stale);
        f.put_some("age_ms", shape::count_of(self.age_ms));
        f.put_some("elapsed_ms", shape::count_of(self.elapsed_ms));
        let snapshot = match self.snapshot {
            Some(v) => Some(v.shape()),
            None => None,
        };
        f.put_some("snapshot", snapshot);
        f.put_some("error", borrowed_text(self.error));
        assert(f@ =~= self.says()->Record_0);
        f.finish()
    }
}

} // verus!
