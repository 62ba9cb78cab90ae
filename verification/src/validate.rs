//! The rules a configuration has to keep, and the first one that it breaks.

use vstd::prelude::*;

use crate::config;
use crate::config::{Config, Device, Graph, Group, Health, Kind, Mesh, Preset, Push};
use crate::text;

verus! {

/// Why a configuration is not used.
#[derive(Debug)]
pub enum ConfigError {
    /// The file could not be read; the reason in words.
    Read(String),
    /// The file could not be parsed; the reason in words.
    Parse(String),
    Empty,
    DuplicateName(String),
    EmptyCommand(String),
    EmptyGroup(String),
    UnknownMember { group: String, member: String },
    DuplicateGroup(String),
    MissingCommand { device: String, field: &'static str },
    ForbiddenField { device: String, field: &'static str },
    DuplicatePreset { device: String, preset: String },
    NonShutterInGroup { group: String, member: String },
    DuplicateGroupMember { device: String },
    ColorPlaceholder { device: String, count: usize },
    BrightnessPlaceholder { device: String, count: usize },
    DuplicateGraph(String),
    EmptyGraphQuery(String),
    PeriodPlaceholder { graph: String, count: usize },
    UnknownLightMember { device: String, member: String },
    NonLightMember { device: String, member: String },
    NestedLightMembers { device: String, member: String },
    DuplicateLightMember { member: String },
    EmptyHealthCommand,
    EmptyPushListen,
    EmptyMeshCommand,
}

/// What a configuration error says.
pub enum Fault {
    Read(Seq<char>),
    Parse(Seq<char>),
    Empty,
    DuplicateName(Seq<char>),
    EmptyCommand(Seq<char>),
    EmptyGroup(Seq<char>),
    UnknownMember { group: Seq<char>, member: Seq<char> },
    DuplicateGroup(Seq<char>),
    MissingCommand { device: Seq<char>, field: Seq<char> },
    ForbiddenField { device: Seq<char>, field: Seq<char> },
    DuplicatePreset { device: Seq<char>, preset: Seq<char> },
    NonShutterInGroup { group: Seq<char>, member: Seq<char> },
    DuplicateGroupMember { device: Seq<char> },
    ColorPlaceholder { device: Seq<char>, count: usize },
    BrightnessPlaceholder { device: Seq<char>, count: usize },
    DuplicateGraph(Seq<char>),
    EmptyGraphQuery(Seq<char>),
    PeriodPlaceholder { graph: Seq<char>, count: usize },
    UnknownLightMember { device: Seq<char>, member: Seq<char> },
    NonLightMember { device: Seq<char>, member: Seq<char> },
    NestedLightMembers { device: Seq<char>, member: Seq<char> },
    DuplicateLightMember { member: Seq<char> },
    EmptyHealthCommand,
    EmptyPushListen,
    EmptyMeshCommand,
}

impl View for ConfigError {
    type V = Fault;

    open spec fn view(&self) -> Fault {
        match *self {
            ConfigError::Read(e) => Fault::Read(e@),
            ConfigError::Parse(e) => Fault::Parse(e@),
            ConfigError::Empty => Fault::Empty,
            ConfigError::DuplicateName(n) => Fault::DuplicateName(n@),
            ConfigError::EmptyCommand(n) => Fault::EmptyCommand(n@),
            ConfigError::EmptyGroup(n) => Fault::EmptyGroup(n@),
            ConfigError::UnknownMember { group, member } => Fault::UnknownMember {
                group: group@,
                member: member@,
            },
            ConfigError::DuplicateGroup(n) => Fault::DuplicateGroup(n@),
            ConfigError::MissingCommand { device, field } => Fault::MissingCommand {
                device: device@,
                field: field@,
            },
            ConfigError::ForbiddenField { device, field } => Fault::ForbiddenField {
                device: device@,
                field: field@,
            },
            ConfigError::DuplicatePreset { device, preset } => Fault::DuplicatePreset {
                device: device@,
                preset: preset@,
            },
            ConfigError::NonShutterInGroup { group, member } => Fault::NonShutterInGroup {
                group: group@,
                member: member@,
            },
            ConfigError::DuplicateGroupMember { device } => Fault::DuplicateGroupMember {
                device: device@,
            },
            ConfigError::ColorPlaceholder { device, count } => Fault::ColorPlaceholder {
                device: device@,
                count,
            },
            ConfigError::BrightnessPlaceholder { device, count } => Fault::BrightnessPlaceholder {
                device: device@,
                count,
            },
            ConfigError::DuplicateGraph(n) => Fault::DuplicateGraph(n@),
            ConfigError::EmptyGraphQuery(n) => Fault::EmptyGraphQuery(n@),
            ConfigError::PeriodPlaceholder { graph, count } => Fault::PeriodPlaceholder {
                graph: graph@,
                count,
            },
            ConfigError::UnknownLightMember { device, member } => Fault::UnknownLightMember {
                device: device@,
                member: member@,
            },
            ConfigError::NonLightMember { device, member } => Fault::NonLightMember {
                device: device@,
                member: member@,
            },
            ConfigError::NestedLightMembers { device, member } => Fault::NestedLightMembers {
                device: device@,
                member: member@,
            },
            ConfigError::DuplicateLightMember { member } => Fault::DuplicateLightMember {
                member: member@,
            },
            ConfigError::EmptyHealthCommand => Fault::EmptyHealthCommand,
            ConfigError::EmptyPushListen => Fault::EmptyPushListen,
            ConfigError::EmptyMeshCommand => Fault::EmptyMeshCommand,
        }
    }
}

/// The fault that a check reports.
pub open spec fn reported(r: Result<(), ConfigError>) -> Option<Fault> {
    match r {
        Ok(_) => None,
        Err(e) => Some(e@),
    }
}

/// The first of two findings.
pub open spec fn or(a: Option<Fault>, b: Option<Fault>) -> Option<Fault> {
    match a {
        Some(_) => a,
        None => b,
    }
}

/// The first finding among those of the first `n` places.
pub open spec fn first_fault(n: nat, at: spec_fn(int) -> Option<Fault>) -> Option<Fault>
    decreases n,
{
    if n == 0 {
        None
    } else {
        or(first_fault((n - 1) as nat, at), at(n - 1))
    }
}

/// A finding after places without one is the first.
proof fn lemma_first_fault(n: nat, at: spec_fn(int) -> Option<Fault>, i: int)
    requires
        0 <= i < n,
        first_fault(i as nat, at) is None,
        at(i) is Some,
    ensures
        first_fault(n, at) == at(i),
    decreases n,
{
    if i < n - 1 {
        lemma_first_fault((n - 1) as nat, at, i);
    }
}

/// Without a finding among all, there is none at any place.
pub proof fn lemma_no_fault(n: nat, at: spec_fn(int) -> Option<Fault>)
    requires
        first_fault(n, at) is None,
    ensures
        forall|i: int| 0 <= i < n ==> (#[trigger] at(i)) is None,
    decreases n,
{
    if n > 0 {
        lemma_no_fault((n - 1) as nat, at);
    }
}

/// A command that the kind of the device needs.
pub open spec fn needs(device: Seq<char>, field: Seq<char>, cmd: Option<Vec<String>>) -> Option<Fault> {
    match cmd {
        Some(c) => if c@.len() == 0 {
            Some(Fault::EmptyCommand(device))
        } else {
            None
        },
        None => Some(Fault::MissingCommand { device, field }),
    }
}

/// A field that the kind of the device does not have.
pub open spec fn bars(device: Seq<char>, field: Seq<char>, given: bool) -> Option<Fault> {
    if given {
        Some(Fault::ForbiddenField { device, field })
    } else {
        None
    }
}

/// How often the pattern occurs in the words of a command line.
pub open spec fn uses(words: Seq<String>, pattern: Seq<char>) -> nat
    decreases words.len(),
{
    if words.len() == 0 {
        0
    } else {
        uses(words.drop_last(), pattern) + text::occurrences(words.last()@, pattern)
    }
}

/// A number as far as a `usize` goes.
pub open spec fn clamped(n: nat) -> usize {
    if n <= usize::MAX {
        n as usize
    } else {
        usize::MAX
    }
}

pub open spec fn shutter_fault(d: Device) -> Option<Fault> {
    or(needs(d.name@, "open"@, d.open),
    or(needs(d.name@, "close"@, d.close),
    or(bars(d.name@, "on"@, d.on is Some),
    or(bars(d.name@, "off"@, d.off is Some),
    or(bars(d.name@, "color"@, d.color is Some),
    or(bars(d.name@, "brightness"@, d.brightness is Some),
    or(bars(d.name@, "face"@, d.face is Some),
    or(bars(d.name@, "preset"@, d.presets@.len() > 0),
    if d.stop matches Some(c) && c@.len() == 0 {
        Some(Fault::EmptyCommand(d.name@))
    } else {
        None
    }))))))))
}

/// The preset at `k` has a name of its own and a command.
pub open spec fn preset_fault(d: Device, k: int) -> Option<Fault> {
    let p = d.presets@[k];
    if exists|j: int| 0 <= j < k && #[trigger] d.presets@[j].name@ == p.name@ {
        Some(Fault::DuplicatePreset { device: d.name@, preset: p.name@ })
    } else if p.cmd@.len() == 0 {
        Some(Fault::EmptyCommand(d.name@))
    } else {
        None
    }
}

pub open spec fn presets_fault(d: Device) -> Option<Fault> {
    first_fault(d.presets@.len(), |k: int| preset_fault(d, k))
}

pub open spec fn color_fault(d: Device) -> Option<Fault> {
    match d.color {
        Some(c) => if c@.len() == 0 {
            Some(Fault::EmptyCommand(d.name@))
        } else if uses(c@, "{color}"@) != 1 {
            Some(Fault::ColorPlaceholder { device: d.name@, count: clamped(uses(c@, "{color}"@)) })
        } else {
            None
        },
        None => None,
    }
}

pub open spec fn brightness_fault(d: Device) -> Option<Fault> {
    match d.brightness {
        Some(c) => if c@.len() == 0 {
            Some(Fault::EmptyCommand(d.name@))
        } else if uses(c@, "{brightness}"@) != 1 {
            Some(
                Fault::BrightnessPlaceholder {
                    device: d.name@,
                    count: clamped(uses(c@, "{brightness}"@)),
                },
            )
        } else {
            None
        },
        None => None,
    }
}

pub open spec fn light_fault(d: Device) -> Option<Fault> {
    or(needs(d.name@, "on"@, d.on),
    or(needs(d.name@, "off"@, d.off),
    or(bars(d.name@, "open"@, d.open is Some),
    or(bars(d.name@, "close"@, d.close is Some),
    or(bars(d.name@, "stop"@, d.stop is Some),
    or(bars(d.name@, "face"@, d.face is Some),
    or(presets_fault(d),
    or(color_fault(d),
    brightness_fault(d)))))))))
}

pub open spec fn switch_fault(d: Device) -> Option<Fault> {
    or(needs(d.name@, "on"@, d.on),
    or(needs(d.name@, "off"@, d.off),
    or(bars(d.name@, "open"@, d.open is Some),
    or(bars(d.name@, "close"@, d.close is Some),
    or(bars(d.name@, "stop"@, d.stop is Some),
    or(bars(d.name@, "color"@, d.color is Some),
    or(bars(d.name@, "brightness"@, d.brightness is Some),
    bars(d.name@, "preset"@, d.presets@.len() > 0))))))))
}

/// The device at `i` has a name of its own, a command that reads its state,
/// and the fields of its kind.
pub open spec fn device_fault(devices: Seq<Device>, i: int) -> Option<Fault> {
    let d = devices[i];
    if exists|j: int| 0 <= j < i && #[trigger] devices[j].name@ == d.name@ {
        Some(Fault::DuplicateName(d.name@))
    } else if d.get_state@.len() == 0 {
        Some(Fault::EmptyCommand(d.name@))
    } else {
        match d.kind {
            Kind::Shutter => shutter_fault(d),
            Kind::Light => light_fault(d),
            Kind::Switch => switch_fault(d),
        }
    }
}

/// The members of the first `n` devices, one after the other.
pub open spec fn light_members(devices: Seq<Device>, n: nat) -> Seq<Seq<char>>
    decreases n,
{
    if n == 0 {
        Seq::empty()
    } else {
        light_members(devices, (n - 1) as nat) + text::texts(devices[n - 1].members@)
    }
}

/// The member at `k` of the device at `i` is a light without members of its
/// own that has not been listed before.
pub open spec fn light_member_fault(devices: Seq<Device>, i: int, k: int) -> Option<Fault> {
    let d = devices[i];
    let m = d.members@[k]@;
    match config::find_device(devices, m) {
        None => Some(Fault::UnknownLightMember { device: d.name@, member: m }),
        Some(md) => if md.kind != Kind::Light {
            Some(Fault::NonLightMember { device: d.name@, member: m })
        } else if md.members@.len() > 0 {
            Some(Fault::NestedLightMembers { device: d.name@, member: m })
        } else if (light_members(devices, i as nat) + text::texts(d.members@).take(k)).contains(m) {
            Some(Fault::DuplicateLightMember { member: m })
        } else {
            None
        },
    }
}

/// Only a light has members, and each of them is allowed.
pub open spec fn card_fault(devices: Seq<Device>, i: int) -> Option<Fault> {
    let d = devices[i];
    if d.members@.len() == 0 {
        None
    } else if d.kind != Kind::Light {
        Some(Fault::ForbiddenField { device: d.name@, field: "members"@ })
    } else {
        first_fault(d.members@.len(), |k: int| light_member_fault(devices, i, k))
    }
}

/// The members of the first `n` groups, one after the other.
pub open spec fn group_members(groups: Seq<Group>, n: nat) -> Seq<Seq<char>>
    decreases n,
{
    if n == 0 {
        Seq::empty()
    } else {
        group_members(groups, (n - 1) as nat) + text::texts(groups[n - 1].members@)
    }
}

/// The member at `k` of the group at `i` is a shutter that has not been listed
/// before.
pub open spec fn group_member_fault(
    devices: Seq<Device>,
    groups: Seq<Group>,
    i: int,
    k: int,
) -> Option<Fault> {
    let g = groups[i];
    let m = g.members@[k]@;
    match config::find_device(devices, m) {
        None => Some(Fault::UnknownMember { group: g.name@, member: m }),
        Some(d) => if d.kind != Kind::Shutter {
            Some(Fault::NonShutterInGroup { group: g.name@, member: m })
        } else if (group_members(groups, i as nat) + text::texts(g.members@).take(k)).contains(m) {
            Some(Fault::DuplicateGroupMember { device: m })
        } else {
            None
        },
    }
}

/// The group at `i` has a name of its own and members that are allowed.
pub open spec fn group_fault(devices: Seq<Device>, groups: Seq<Group>, i: int) -> Option<Fault> {
    let g = groups[i];
    if exists|j: int| 0 <= j < i && #[trigger] groups[j].name@ == g.name@ {
        Some(Fault::DuplicateGroup(g.name@))
    } else if g.members@.len() == 0 {
        Some(Fault::EmptyGroup(g.name@))
    } else {
        first_fault(g.members@.len(), |k: int| group_member_fault(devices, groups, i, k))
    }
}

/// The graph at `i` has a name of its own and a query with one `{period}`.
pub open spec fn graph_fault(graphs: Seq<Graph>, i: int) -> Option<Fault> {
    let g = graphs[i];
    if exists|j: int| 0 <= j < i && #[trigger] graphs[j].name@ == g.name@ {
        Some(Fault::DuplicateGraph(g.name@))
    } else if g.query@.len() == 0 {
        Some(Fault::EmptyGraphQuery(g.name@))
    } else if uses(g.query@, "{period}"@) != 1 {
        Some(
            Fault::PeriodPlaceholder { graph: g.name@, count: clamped(uses(g.query@, "{period}"@)) },
        )
    } else {
        None
    }
}

pub open spec fn devices_fault(devices: Seq<Device>) -> Option<Fault> {
    first_fault(devices.len(), |i: int| device_fault(devices, i))
}

pub open spec fn cards_fault(devices: Seq<Device>) -> Option<Fault> {
    first_fault(devices.len(), |i: int| card_fault(devices, i))
}

pub open spec fn groups_fault(devices: Seq<Device>, groups: Seq<Group>) -> Option<Fault> {
    first_fault(groups.len(), |i: int| group_fault(devices, groups, i))
}

pub open spec fn graphs_fault(graphs: Seq<Graph>) -> Option<Fault> {
    first_fault(graphs.len(), |i: int| graph_fault(graphs, i))
}

/// The commands outside devices and graphs have at least one word.
pub open spec fn commands_fault(
    health: Option<Health>,
    push: Option<Push>,
    mesh: Option<Mesh>,
) -> Option<Fault> {
    if health matches Some(h) && h.command@.len() == 0 {
        Some(Fault::EmptyHealthCommand)
    } else if push matches Some(p) && p.listen@.len() == 0 {
        Some(Fault::EmptyPushListen)
    } else if mesh matches Some(m) && m.command@.len() == 0 {
        Some(Fault::EmptyMeshCommand)
    } else {
        None
    }
}

impl Fault {
    /// The fault in words.
    pub open spec fn words(self) -> Seq<char> {
        match self {
            Fault::Read(e) => "config 読み込み失敗: "@ + e,
            Fault::Parse(e) => "config パース失敗: "@ + e,
            Fault::Empty => "config に [[device]] が 1 つもない"@,
            Fault::DuplicateName(n) => "device 名が重複: "@ + n,
            Fault::EmptyCommand(n) => "device "@ + n + ": コマンド配列が空"@,
            Fault::EmptyGroup(n) => "group "@ + n + ": members が空"@,
            Fault::UnknownMember { group, member } => "group "@ + group
                + ": 未知の device を参照: "@ + member,
            Fault::DuplicateGroup(n) => "group 名が重複: "@ + n,
            Fault::MissingCommand { device, field } => "device "@ + device + ": "@ + field
                + " がない（この kind では必須）"@,
            Fault::ForbiddenField { device, field } => "device "@ + device + ": "@ + field
                + " はこの kind では指定できない"@,
            Fault::DuplicatePreset { device, preset } => "device "@ + device
                + ": preset 名が重複: "@ + preset,
            Fault::NonShutterInGroup { group, member } => "group "@ + group
                + ": シャッター以外はグループに入れられない: "@ + member,
            Fault::DuplicateGroupMember { device } => "device "@ + device
                + ": 複数のグループに所属できない（UI が個別行をデバイスごとに 1 つしか持てないため）"@,
            Fault::ColorPlaceholder { device, count } => "device "@ + device
                + ": color テンプレは {color} プレースホルダをちょうど 1 個含む必要がある（現在 "@
                + text::decimal(count as nat) + " 個）"@,
            Fault::BrightnessPlaceholder { device, count } => "device "@ + device
                + ": brightness テンプレは {brightness} プレースホルダをちょうど 1 個含む必要がある（現在 "@
                + text::decimal(count as nat) + " 個）"@,
            Fault::DuplicateGraph(n) => "graph 名が重複: "@ + n,
            Fault::EmptyGraphQuery(n) => "graph "@ + n + ": query が空"@,
            Fault::PeriodPlaceholder { graph, count } => "graph "@ + graph
                + ": query は {period} プレースホルダをちょうど 1 個含む必要がある（現在 "@
                + text::decimal(count as nat) + " 個）"@,
            Fault::UnknownLightMember { device, member } => "device "@ + device
                + ": members が未知の device を参照: "@ + member,
            Fault::NonLightMember { device, member } => "device "@ + device
                + ": members に light 以外は入れられない: "@ + member,
            Fault::NestedLightMembers { device, member } => "device "@ + device + ": member "@
                + member + " は自身が members を持つため入れ子にできない"@,
            Fault::DuplicateLightMember { member } => "device "@ + member
                + ": members に複数回指定されている（同一グループ内の重複または複数グループへの所属）"@,
            Fault::EmptyHealthCommand => "health: command が空"@,
            Fault::EmptyPushListen => "push: listen が空"@,
            Fault::EmptyMeshCommand => "mesh: command が空"@,
        }
    }
}

impl Config {
    /// The first rule that the configuration breaks.
    pub open spec fn fault(self) -> Option<Fault> {
        if self.devices@.len() == 0 {
            Some(Fault::Empty)
        } else {
            or(devices_fault(self.devices@),
            or(cards_fault(self.devices@),
            or(groups_fault(self.devices@, self.groups@),
            or(graphs_fault(self.graphs@),
            commands_fault(self.health, self.push, self.mesh)))))
        }
    }
}

impl ConfigError {
    /// The error in words.
    pub fn message(&self) -> (r: String)
        ensures
            r@ == self@.words(),
    {
        match self {
            ConfigError::Read(e) => text::join2("config 読み込み失敗: ", e.as_str()),
            ConfigError::Parse(e) => text::join2("config パース失敗: ", e.as_str()),
            ConfigError::Empty => "config に [[device]] が 1 つもない".to_owned(),
            ConfigError::DuplicateName(n) => text::join2("device 名が重複: ", n.as_str()),
            ConfigError::EmptyCommand(n) => text::join3("device ", n.as_str(), ": コマンド配列が空"),
            ConfigError::EmptyGroup(n) => text::join3("group ", n.as_str(), ": members が空"),
            ConfigError::UnknownMember { group, member } => text::join4(
                "group ",
                group.as_str(),
                ": 未知の device を参照: ",
                member.as_str(),
            ),
            ConfigError::DuplicateGroup(n) => text::join2("group 名が重複: ", n.as_str()),
            ConfigError::MissingCommand { device, field } => text::join5(
                "device ",
                device.as_str(),
                ": ",
                field,
                " がない（この kind では必須）",
            ),
            ConfigError::ForbiddenField { device, field } => text::join5(
                "device ",
                device.as_str(),
                ": ",
                field,
                " はこの kind では指定できない",
            ),
            ConfigError::DuplicatePreset { device, preset } => text::join4(
                "device ",
                device.as_str(),
                ": preset 名が重複: ",
                preset.as_str(),
            ),
            ConfigError::NonShutterInGroup { group, member } => text::join4(
                "group ",
                group.as_str(),
                ": シャッター以外はグループに入れられない: ",
                member.as_str(),
            ),
            ConfigError::DuplicateGroupMember { device } => text::join3(
                "device ",
                device.as_str(),
                ": 複数のグループに所属できない（UI が個別行をデバイスごとに 1 つしか持てないため）",
            ),
            ConfigError::ColorPlaceholder { device, count } => text::join5(
                "device ",
                device.as_str(),
                ": color テンプレは {color} プレースホルダをちょうど 1 個含む必要がある（現在 ",
                text::to_decimal(*count as u64).as_str(),
                " 個）",
            ),
            ConfigError::BrightnessPlaceholder { device, count } => text::join5(
                "device ",
                device.as_str(),
                ": brightness テンプレは {brightness} プレースホルダをちょうど 1 個含む必要がある（現在 ",
                text::to_decimal(*count as u64).as_str(),
                " 個）",
            ),
            ConfigError::DuplicateGraph(n) => text::join2("graph 名が重複: ", n.as_str()),
            ConfigError::EmptyGraphQuery(n) => text::join3("graph ", n.as_str(), ": query が空"),
            ConfigError::PeriodPlaceholder { graph, count } => text::join5(
                "graph ",
                graph.as_str(),
                ": query は {period} プレースホルダをちょうど 1 個含む必要がある（現在 ",
                text::to_decimal(*count as u64).as_str(),
                " 個）",
            ),
            ConfigError::UnknownLightMember { device, member } => text::join4(
                "device ",
                device.as_str(),
                ": members が未知の device を参照: ",
                member.as_str(),
            ),
            ConfigError::NonLightMember { device, member } => text::join4(
                "device ",
                device.as_str(),
                ": members に light 以外は入れられない: ",
                member.as_str(),
            ),
            ConfigError::NestedLightMembers { device, member } => text::join5(
                "device ",
                device.as_str(),
                ": member ",
                member.as_str(),
                " は自身が members を持つため入れ子にできない",
            ),
            ConfigError::DuplicateLightMember { member } => text::join3(
                "device ",
                member.as_str(),
                ": members に複数回指定されている（同一グループ内の重複または複数グループへの所属）",
            ),
            ConfigError::EmptyHealthCommand => "health: command が空".to_owned(),
            ConfigError::EmptyPushListen => "push: listen が空".to_owned(),
            ConfigError::EmptyMeshCommand => "mesh: command が空".to_owned(),
        }
    }
}

/// A command that the kind of the device needs: it is given, with at least one
/// word.
pub fn require(device: &str, field: &'static str, v: &Option<Vec<String>>) -> (r: Result<
    (),
    ConfigError,
>)
    ensures
        reported(r) == needs(device@, field@, *v),
{
    match v {
        Some(c) => if c.len() == 0 {
            Err(ConfigError::EmptyCommand(device.to_owned()))
        } else {
            Ok(())
        },
        None => Err(ConfigError::MissingCommand { device: device.to_owned(), field }),
    }
}

/// A command that the kind of the device does not have.
pub fn forbid(device: &str, field: &'static str, v: &Option<Vec<String>>) -> (r: Result<
    (),
    ConfigError,
>)
    ensures
        reported(r) == bars(device@, field@, v is Some),
{
    forbid_if(device, field, v.is_some())
}

fn forbid_if(device: &str, field: &'static str, given: bool) -> (r: Result<(), ConfigError>)
    ensures
        reported(r) == bars(device@, field@, given),
{
    if given {
        Err(ConfigError::ForbiddenField { device: device.to_owned(), field })
    } else {
        Ok(())
    }
}

/// How often the pattern occurs in the words of a command line, as far as a
/// `usize` goes.
fn count_uses(words: &Vec<String>, pattern: &str) -> (n: usize)
    requires
        pattern@.len() > 0,
    ensures
        n == clamped(uses(words@, pattern@)),
{
    let mut n: usize = 0;
    let mut i: usize = 0;
    while i < words.len()
        invariant
            i <= words.len(),
            pattern@.len() > 0,
            n == clamped(uses(words@.take(i as int), pattern@)),
        decreases words.len() - i,
    {
        assert(words@.take(i + 1).drop_last() =~= words@.take(i as int));
        let more = text::count(words[i].as_str(), pattern);
        n = if more <= usize::MAX - n {
            n + more
        } else {
            usize::MAX
        };
        i += 1;
    }
    assert(words@.take(words@.len() as int) =~= words@);
    n
}

/// Whether the text is in the list.
fn lists(list: &Vec<String>, s: &str) -> (found: bool)
    ensures
        found == text::texts(list@).contains(s@),
{
    let mut i: usize = 0;
    while i < list.len()
        invariant
            i <= list.len(),
            forall|j: int| 0 <= j < i ==> list@[j]@ != s@,
        decreases list.len() - i,
    {
        if text::same(list[i].as_str(), s) {
            assert(text::texts(list@)[i as int] == s@);
            return true;
        }
        i += 1;
    }
    false
}

fn check_shutter(d: &Device) -> (r: Result<(), ConfigError>)
    ensures
        reported(r) == shutter_fault(*d),
{
    let name = d.name.as_str();
    if let Err(e) = require(name, "open", &d.open) {
        return Err(e);
    }
    if let Err(e) = require(name, "close", &d.close) {
        return Err(e);
    }
    if let Err(e) = forbid(name, "on", &d.on) {
        return Err(e);
    }
    if let Err(e) = forbid(name, "off", &d.off) {
        return Err(e);
    }
    if let Err(e) = forbid(name, "color", &d.color) {
        return Err(e);
    }
    if let Err(e) = forbid(name, "brightness", &d.brightness) {
        return Err(e);
    }
    if let Err(e) = forbid_if(name, "face", d.face.is_some()) {
        return Err(e);
    }
    if let Err(e) = forbid_if(name, "preset", d.presets.len() > 0) {
        return Err(e);
    }
    match &d.stop {
        Some(c) => if c.len() == 0 {
            Err(ConfigError::EmptyCommand(d.name.clone()))
        } else {
            Ok(())
        },
        None => Ok(()),
    }
}

fn check_presets(d: &Device) -> (r: Result<(), ConfigError>)
    ensures
        reported(r) == presets_fault(*d),
{
    let ghost at = |k: int| preset_fault(*d, k);
    let mut i: usize = 0;
    while i < d.presets.len()
        invariant
            i <= d.presets.len(),
            at == (|k: int| preset_fault(*d, k)),
            first_fault(i as nat, at) is None,
        decreases d.presets.len() - i,
    {
        let p: &Preset = &d.presets[i];
        let mut j: usize = 0;
        while j < i
            invariant
                j <= i < d.presets.len(),
                *p == d.presets@[i as int],
                at == (|k: int| preset_fault(*d, k)),
                first_fault(i as nat, at) is None,
                forall|k: int| 0 <= k < j ==> (#[trigger] d.presets@[k]).name@ != p.name@,
            decreases i - j,
        {
            if text::same(d.presets[j].name.as_str(), p.name.as_str()) {
                proof {
                    lemma_first_fault(d.presets@.len(), at, i as int);
                }
                return Err(
                    ConfigError::DuplicatePreset { device: d.name.clone(), preset: p.name.clone() },
                );
            }
            j += 1;
        }
        if p.cmd.len() == 0 {
            proof {
                lemma_first_fault(d.presets@.len(), at, i as int);
            }
            return Err(ConfigError::EmptyCommand(d.name.clone()));
        }
        i += 1;
    }
    Ok(())
}

fn check_light(d: &Device) -> (r: Result<(), ConfigError>)
    ensures
        reported(r) == light_fault(*d),
{
    let name = d.name.as_str();
    if let Err(e) = require(name, "on", &d.on) {
        return Err(e);
    }
    if let Err(e) = require(name, "off", &d.off) {
        return Err(e);
    }
    if let Err(e) = forbid(name, "open", &d.open) {
        return Err(e);
    }
    if let Err(e) = forbid(name, "close", &d.close) {
        return Err(e);
    }
    if let Err(e) = forbid(name, "stop", &d.stop) {
        return Err(e);
    }
    if let Err(e) = forbid_if(name, "face", d.face.is_some()) {
        return Err(e);
    }
    if let Err(e) = check_presets(d) {
        return Err(e);
    }
    proof {
        reveal_strlit("{color}");
        reveal_strlit("{brightness}");
    }
    if let Some(c) = &d.color {
        if c.len() == 0 {
            return Err(ConfigError::EmptyCommand(d.name.clone()));
        }
        let count = count_uses(c, "{color}");
        if count != 1 {
            return Err(ConfigError::ColorPlaceholder { device: d.name.clone(), count });
        }
    }
    if let Some(c) = &d.brightness {
        if c.len() == 0 {
            return Err(ConfigError::EmptyCommand(d.name.clone()));
        }
        let count = count_uses(c, "{brightness}");
        if count != 1 {
            return Err(ConfigError::BrightnessPlaceholder { device: d.name.clone(), count });
        }
    }
    Ok(())
}

fn check_switch(d: &Device) -> (r: Result<(), ConfigError>)
    ensures
        reported(r) == switch_fault(*d),
{
    let name = d.name.as_str();
    if let Err(e) = require(name, "on", &d.on) {
        return Err(e);
    }
    if let Err(e) = require(name, "off", &d.off) {
        return Err(e);
    }
    if let Err(e) = forbid(name, "open", &d.open) {
        return Err(e);
    }
    if let Err(e) = forbid(name, "close", &d.close) {
        return Err(e);
    }
    if let Err(e) = forbid(name, "stop", &d.stop) {
        return Err(e);
    }
    if let Err(e) = forbid(name, "color", &d.color) {
        return Err(e);
    }
    if let Err(e) = forbid(name, "brightness", &d.brightness) {
        return Err(e);
    }
    forbid_if(name, "preset", d.presets.len() > 0)
}

fn check_device(devices: &Vec<Device>, i: usize) -> (r: Result<(), ConfigError>)
    requires
        i < devices.len(),
    ensures
        reported(r) == device_fault(devices@, i as int),
{
    let d = &devices[i];
    let mut j: usize = 0;
    while j < i
        invariant
            j <= i < devices.len(),
            *d == devices@[i as int],
            forall|k: int| 0 <= k < j ==> (#[trigger] devices@[k]).name@ != d.name@,
        decreases i - j,
    {
        if text::same(devices[j].name.as_str(), d.name.as_str()) {
            return Err(ConfigError::DuplicateName(d.name.clone()));
        }
        j += 1;
    }
    if d.get_state.len() == 0 {
        return Err(ConfigError::EmptyCommand(d.name.clone()));
    }
    match d.kind {
        Kind::Shutter => check_shutter(d),
        Kind::Light => check_light(d),
        Kind::Switch => check_switch(d),
    }
}

fn check_devices(devices: &Vec<Device>) -> (r: Result<(), ConfigError>)
    ensures
        reported(r) == devices_fault(devices@),
{
    let ghost at = |i: int| device_fault(devices@, i);
    let mut i: usize = 0;
    while i < devices.len()
        invariant
            i <= devices.len(),
            at == (|i: int| device_fault(devices@, i)),
            first_fault(i as nat, at) is None,
        decreases devices.len() - i,
    {
        if let Err(e) = check_device(devices, i) {
            proof {
                lemma_first_fault(devices@.len(), at, i as int);
            }
            return Err(e);
        }
        i += 1;
    }
    Ok(())
}

impl Config {
    /// The members of the light at `i`, where `seen` holds those of the lights
    /// before it; `seen` then holds those of this one as well.
    fn check_card(&self, i: usize, seen: &mut Vec<String>) -> (r: Result<(), ConfigError>)
        requires
            i < self.devices.len(),
            text::texts(old(seen)@) == light_members(self.devices@, i as nat),
        ensures
            reported(r) == card_fault(self.devices@, i as int),
            r is Ok ==> text::texts(final(seen)@) == light_members(self.devices@, (i + 1) as nat),
    {
        let d = &self.devices[i];
        let ghost devices = self.devices@;
        let ghost before = light_members(devices, i as nat);
        let ghost listed = text::texts(d.members@);
        if d.members.len() == 0 {
            assert(before + listed =~= before);
            return Ok(());
        }
        if d.kind != Kind::Light {
            return Err(ConfigError::ForbiddenField { device: d.name.clone(), field: "members" });
        }
        let ghost at = |k: int| light_member_fault(devices, i as int, k);
        let mut k: usize = 0;
        assert(before + listed.take(0) =~= before);
        while k < d.members.len()
            invariant
                i < self.devices.len(),
                devices == self.devices@,
                *d == devices[i as int],
                d.kind == Kind::Light,
                d.members.len() > 0,
                before == light_members(devices, i as nat),
                listed == text::texts(d.members@),
                k <= d.members.len(),
                at == (|k: int| light_member_fault(devices, i as int, k)),
                first_fault(k as nat, at) is None,
                text::texts(seen@) == before + listed.take(k as int),
            decreases d.members.len() - k,
        {
            let m = &d.members[k];
            let md = match self.find(m.as_str()) {
                Some(md) => md,
                None => {
                    proof {
                        lemma_first_fault(d.members@.len(), at, k as int);
                    }
                    return Err(
                        ConfigError::UnknownLightMember {
                            device: d.name.clone(),
                            member: m.clone(),
                        },
                    );
                },
            };
            if md.kind != Kind::Light {
                proof {
                    lemma_first_fault(d.members@.len(), at, k as int);
                }
                return Err(
                    ConfigError::NonLightMember { device: d.name.clone(), member: m.clone() },
                );
            }
            if md.members.len() > 0 {
                proof {
                    lemma_first_fault(d.members@.len(), at, k as int);
                }
                return Err(
                    ConfigError::NestedLightMembers { device: d.name.clone(), member: m.clone() },
                );
            }
            if lists(seen, m.as_str()) {
                proof {
                    lemma_first_fault(d.members@.len(), at, k as int);
                }
                return Err(ConfigError::DuplicateLightMember { member: m.clone() });
            }
            let ghost so_far = seen@;
            seen.push(m.clone());
            assert(text::texts(seen@) =~= text::texts(so_far).push(m@));
            assert(before + listed.take(k + 1) =~= (before + listed.take(k as int)).push(m@));
            k += 1;
        }
        assert(listed.take(listed.len() as int) =~= listed);
        Ok(())
    }

    fn check_cards(&self) -> (r: Result<(), ConfigError>)
        ensures
            reported(r) == cards_fault(self.devices@),
    {
        let ghost devices = self.devices@;
        let ghost at = |i: int| card_fault(devices, i);
        let mut seen: Vec<String> = Vec::new();
        let mut i: usize = 0;
        assert(text::texts(seen@) =~= Seq::<Seq<char>>::empty());
        while i < self.devices.len()
            invariant
                i <= self.devices.len(),
                devices == self.devices@,
                at == (|i: int| card_fault(devices, i)),
                first_fault(i as nat, at) is None,
                text::texts(seen@) == light_members(devices, i as nat),
            decreases self.devices.len() - i,
        {
            if let Err(e) = self.check_card(i, &mut seen) {
                proof {
                    lemma_first_fault(devices.len(), at, i as int);
                }
                return Err(e);
            }
            i += 1;
        }
        Ok(())
    }

    /// The group at `i`, where `seen` holds the members of the groups before
    /// it; `seen` then holds those of this one as well.
    fn check_group(&self, i: usize, seen: &mut Vec<String>) -> (r: Result<(), ConfigError>)
        requires
            i < self.groups.len(),
            text::texts(old(seen)@) == group_members(self.groups@, i as nat),
        ensures
            reported(r) == group_fault(self.devices@, self.groups@, i as int),
            r is Ok ==> text::texts(final(seen)@) == group_members(self.groups@, (i + 1) as nat),
    {
        let g = &self.groups[i];
        let ghost devices = self.devices@;
        let ghost groups = self.groups@;
        let ghost before = group_members(groups, i as nat);
        let ghost listed = text::texts(g.members@);
        let mut j: usize = 0;
        while j < i
            invariant
                j <= i < self.groups.len(),
                groups == self.groups@,
                *g == groups[i as int],
                forall|k: int| 0 <= k < j ==> (#[trigger] groups[k]).name@ != g.name@,
            decreases i - j,
        {
            if text::same(self.groups[j].name.as_str(), g.name.as_str()) {
                assert(groups[j as int].name@ == g.name@);
                return Err(ConfigError::DuplicateGroup(g.name.clone()));
            }
            j += 1;
        }
        if g.members.len() == 0 {
            return Err(ConfigError::EmptyGroup(g.name.clone()));
        }
        let ghost at = |k: int| group_member_fault(devices, groups, i as int, k);
        let mut k: usize = 0;
        assert(before + listed.take(0) =~= before);
        while k < g.members.len()
            invariant
                i < self.groups.len(),
                devices == self.devices@,
                groups == self.groups@,
                *g == groups[i as int],
                forall|k: int| 0 <= k < i ==> (#[trigger] groups[k]).name@ != g.name@,
                g.members.len() > 0,
                before == group_members(groups, i as nat),
                listed == text::texts(g.members@),
                k <= g.members.len(),
                at == (|k: int| group_member_fault(devices, groups, i as int, k)),
                first_fault(k as nat, at) is None,
                text::texts(seen@) == before + listed.take(k as int),
            decreases g.members.len() - k,
        {
            let m = &g.members[k];
            let d = match self.find(m.as_str()) {
                Some(d) => d,
                None => {
                    proof {
                        lemma_first_fault(g.members@.len(), at, k as int);
                    }
                    return Err(
                        ConfigError::UnknownMember { group: g.name.clone(), member: m.clone() },
                    );
                },
            };
            if d.kind != Kind::Shutter {
                proof {
                    lemma_first_fault(g.members@.len(), at, k as int);
                }
                return Err(
                    ConfigError::NonShutterInGroup { group: g.name.clone(), member: m.clone() },
                );
            }
            if lists(seen, m.as_str()) {
                proof {
                    lemma_first_fault(g.members@.len(), at, k as int);
                }
                return Err(ConfigError::DuplicateGroupMember { device: m.clone() });
            }
            let ghost so_far = seen@;
            seen.push(m.clone());
            assert(text::texts(seen@) =~= text::texts(so_far).push(m@));
            assert(before + listed.take(k + 1) =~= (before + listed.take(k as int)).push(m@));
            k += 1;
        }
        assert(listed.take(listed.len() as int) =~= listed);
        Ok(())
    }

    fn check_groups(&self) -> (r: Result<(), ConfigError>)
        ensures
            reported(r) == groups_fault(self.devices@, self.groups@),
    {
        let ghost devices = self.devices@;
        let ghost groups = self.groups@;
        let ghost at = |i: int| group_fault(devices, groups, i);
        let mut seen: Vec<String> = Vec::new();
        let mut i: usize = 0;
        assert(text::texts(seen@) =~= Seq::<Seq<char>>::empty());
        while i < self.groups.len()
            invariant
                i <= self.groups.len(),
                devices == self.devices@,
                groups == self.groups@,
                at == (|i: int| group_fault(devices, groups, i)),
                first_fault(i as nat, at) is None,
                text::texts(seen@) == group_members(groups, i as nat),
            decreases self.groups.len() - i,
        {
            if let Err(e) = self.check_group(i, &mut seen) {
                proof {
                    lemma_first_fault(groups.len(), at, i as int);
                }
                return Err(e);
            }
            i += 1;
        }
        Ok(())
    }

    fn check_graph(&self, i: usize) -> (r: Result<(), ConfigError>)
        requires
            i < self.graphs.len(),
        ensures
            reported(r) == graph_fault(self.graphs@, i as int),
    {
        let g = &self.graphs[i];
        let mut j: usize = 0;
        while j < i
            invariant
                j <= i < self.graphs.len(),
                *g == self.graphs@[i as int],
                forall|k: int| 0 <= k < j ==> (#[trigger] self.graphs@[k]).name@ != g.name@,
            decreases i - j,
        {
            if text::same(self.graphs[j].name.as_str(), g.name.as_str()) {
                return Err(ConfigError::DuplicateGraph(g.name.clone()));
            }
            j += 1;
        }
        if g.query.len() == 0 {
            return Err(ConfigError::EmptyGraphQuery(g.name.clone()));
        }
        proof {
            reveal_strlit("{period}");
        }
        let count = count_uses(&g.query, "{period}");
        if count != 1 {
            return Err(ConfigError::PeriodPlaceholder { graph: g.name.clone(), count });
        }
        Ok(())
    }

    fn check_graphs(&self) -> (r: Result<(), ConfigError>)
        ensures
            reported(r) == graphs_fault(self.graphs@),
    {
        let ghost graphs = self.graphs@;
        let ghost at = |i: int| graph_fault(graphs, i);
        let mut i: usize = 0;
        while i < self.graphs.len()
            invariant
                i <= self.graphs.len(),
                graphs == self.graphs@,
                at == (|i: int| graph_fault(graphs, i)),
                first_fault(i as nat, at) is None,
            decreases self.graphs.len() - i,
        {
            if let Err(e) = self.check_graph(i) {
                proof {
                    lemma_first_fault(graphs.len(), at, i as int);
                }
                return Err(e);
            }
            i += 1;
        }
        Ok(())
    }

    /// Whether the configuration keeps every rule; else the first rule that it
    /// breaks: first the devices one by one, then the members of lights, the
    /// groups, the graphs, and the remaining commands.
    pub fn validate(&self) -> (r: Result<(), ConfigError>)
        ensures
            reported(r) == self.fault(),
    {
        if self.devices.len() == 0 {
            return Err(ConfigError::Empty);
        }
        if let Err(e) = check_devices(&self.devices) {
            return Err(e);
        }
        if let Err(e) = self.check_cards() {
            return Err(e);
        }
        if let Err(e) = self.check_groups() {
            return Err(e);
        }
        if let Err(e) = self.check_graphs() {
            return Err(e);
        }
        if let Some(h) = &self.health {
            if h.command.len() == 0 {
                return Err(ConfigError::EmptyHealthCommand);
            }
        }
        if let Some(p) = &self.push {
            if p.listen.len() == 0 {
                return Err(ConfigError::EmptyPushListen);
            }
        }
        if let Some(m) = &self.mesh {
            if m.command.len() == 0 {
                return Err(ConfigError::EmptyMeshCommand);
            }
        }
        Ok(())
    }
}

/// A device that is reached without meeting its name before is the one found.
proof fn lemma_found(devices: Seq<Device>, i: int)
    requires
        0 <= i < devices.len(),
        forall|j: int| 0 <= j < i ==> (#[trigger] devices[j]).name@ != devices[i].name@,
    ensures
        config::find_device(devices, devices[i].name@) == Some(devices[i]),
    decreases i,
{
    if i > 0 {
        assert(devices.first() == devices[0]);
        assert forall|j: int| 0 <= j < i - 1 implies (#[trigger] devices.drop_first()[j]).name@
            != devices[i].name@ by {
            assert(devices.drop_first()[j] == devices[j + 1]);
        }
        lemma_found(devices.drop_first(), i - 1);
    }
}

/// What is found under a name is one of the devices and has that name.
pub proof fn lemma_find_device(devices: Seq<Device>, name: Seq<char>)
    ensures
        match config::find_device(devices, name) {
            Some(d) => d.name@ == name && devices.contains(d),
            None => forall|i: int|
                0 <= i < devices.len() ==> (#[trigger] devices[i]).name@ != name,
        },
    decreases devices.len(),
{
    if devices.len() > 0 {
        lemma_find_device(devices.drop_first(), name);
        if devices.first().name@ != name {
            match config::find_device(devices.drop_first(), name) {
                Some(d) => {
                    let i = choose|i: int|
                        0 <= i < devices.drop_first().len() && devices.drop_first()[i] == d;
                    assert(devices[i + 1] == d);
                },
                None => {
                    assert forall|i: int| 0 <= i < devices.len() implies (
                    #[trigger] devices[i]).name@ != name by {
                        if i > 0 {
                            assert(devices[i] == devices.drop_first()[i - 1]);
                        }
                    }
                },
            }
        } else {
            assert(devices[0] == devices.first());
        }
    }
}

/// In a configuration that keeps the rules no two devices share a name, and
/// each device is the one that is found under its name.
pub proof fn lemma_valid_names(c: Config)
    requires
        c.fault() is None,
    ensures
        forall|i: int, j: int|
            0 <= i < j < c.devices@.len() ==> (#[trigger] c.devices@[i]).name@ != (
            #[trigger] c.devices@[j]).name@,
        forall|i: int|
            0 <= i < c.devices@.len() ==> config::find_device(
                c.devices@,
                (#[trigger] c.devices@[i]).name@,
            ) == Some(c.devices@[i]),
{
    let devices = c.devices@;
    let at = |i: int| device_fault(devices, i);
    lemma_no_fault(devices.len(), at);
    assert forall|i: int, j: int| 0 <= i < j < devices.len() implies (
    #[trigger] devices[i]).name@ != (#[trigger] devices[j]).name@ by {
        assert(at(j) is None);
    }
    assert forall|i: int| 0 <= i < devices.len() implies config::find_device(
        devices,
        (#[trigger] devices[i]).name@,
    ) == Some(devices[i]) by {
        lemma_found(devices, i);
    }
}

/// A command line that may be given is either absent or has a first word.
pub open spec fn runnable(cmd: Option<Vec<String>>) -> bool {
    cmd matches Some(c) ==> c@.len() > 0
}

/// In a configuration that keeps the rules every command line has a first
/// word, a shutter can be opened and closed, any other device switched on and
/// off, and each template holds its placeholder exactly once.
pub proof fn lemma_valid_commands(c: Config, d: Device)
    requires
        c.fault() is None,
        c.devices@.contains(d),
    ensures
        d.get_state@.len() > 0,
        runnable(d.open) && runnable(d.close) && runnable(d.stop) && runnable(d.on) && runnable(
            d.off,
        ) && runnable(d.color) && runnable(d.brightness),
        d.kind == Kind::Shutter ==> d.open is Some && d.close is Some,
        d.kind != Kind::Shutter ==> d.on is Some && d.off is Some,
        d.color matches Some(t) ==> d.kind == Kind::Light && uses(t@, "{color}"@) == 1,
        d.brightness matches Some(t) ==> d.kind == Kind::Light && uses(t@, "{brightness}"@) == 1,
        forall|k: int| 0 <= k < d.presets@.len() ==> (#[trigger] d.presets@[k]).cmd@.len() > 0,
        forall|k: int, l: int|
            0 <= k < l < d.presets@.len() ==> (#[trigger] d.presets@[k]).name@ != (
            #[trigger] d.presets@[l]).name@,
{
    let devices = c.devices@;
    let at = |i: int| device_fault(devices, i);
    lemma_no_fault(devices.len(), at);
    let i = choose|i: int| 0 <= i < devices.len() && devices[i] == d;
    assert(at(i) is None);
    if d.kind == Kind::Light {
        let preset = |k: int| preset_fault(d, k);
        lemma_no_fault(d.presets@.len(), preset);
        assert forall|k: int| 0 <= k < d.presets@.len() implies (
        #[trigger] d.presets@[k]).cmd@.len() > 0 by {
            assert(preset(k) is None);
        }
        assert forall|k: int, l: int| 0 <= k < l < d.presets@.len() implies (
        #[trigger] d.presets@[k]).name@ != (#[trigger] d.presets@[l]).name@ by {
            assert(preset(l) is None);
        }
    }
}

/// In a configuration that keeps the rules no two graphs share a name, and
/// every query has a first word and holds `{period}` exactly once.
pub proof fn lemma_valid_graphs(c: Config)
    requires
        c.fault() is None,
    ensures
        forall|i: int|
            0 <= i < c.graphs@.len() ==> (#[trigger] c.graphs@[i]).query@.len() > 0 && uses(
                c.graphs@[i].query@,
                "{period}"@,
            ) == 1,
        forall|i: int, j: int|
            0 <= i < j < c.graphs@.len() ==> (#[trigger] c.graphs@[i]).name@ != (
            #[trigger] c.graphs@[j]).name@,
{
    let graphs = c.graphs@;
    let at = |i: int| graph_fault(graphs, i);
    lemma_no_fault(graphs.len(), at);
    assert forall|i: int| 0 <= i < graphs.len() implies (#[trigger] graphs[i]).query@.len() > 0
        && uses(graphs[i].query@, "{period}"@) == 1 by {
        assert(at(i) is None);
    }
    assert forall|i: int, j: int| 0 <= i < j < graphs.len() implies (#[trigger] graphs[i]).name@
        != (#[trigger] graphs[j]).name@ by {
        assert(at(j) is None);
    }
}

/// A list whose elements are each new when they are added has no duplicates.
proof fn lemma_grown(before: Seq<Seq<char>>, more: Seq<Seq<char>>, k: int)
    requires
        before.no_duplicates(),
        0 <= k <= more.len(),
        forall|j: int| 0 <= j < k ==> !(before + more.take(j)).contains(#[trigger] more[j]),
    ensures
        (before + more.take(k)).no_duplicates(),
    decreases k,
{
    if k == 0 {
        assert(before + more.take(0) =~= before);
    } else {
        lemma_grown(before, more, k - 1);
        let prior = before + more.take(k - 1);
        assert(before + more.take(k) =~= prior.push(more[k - 1]));
        assert(!prior.contains(more[k - 1]));
        let all = prior.push(more[k - 1]);
        assert forall|a: int, b: int|
            0 <= a < all.len() && 0 <= b < all.len() && a != b implies #[trigger] all[a]
            != #[trigger] all[b] by {
            if a < prior.len() && b < prior.len() {
                assert(prior[a] != prior[b]);
            } else if a < prior.len() {
                assert(prior.contains(prior[a]));
            } else {
                assert(prior.contains(prior[b]));
            }
        }
    }
}

proof fn lemma_light_members_once(devices: Seq<Device>, n: nat)
    requires
        n <= devices.len(),
        forall|i: int| 0 <= i < devices.len() ==> #[trigger] card_fault(devices, i) is None,
    ensures
        light_members(devices, n).no_duplicates(),
    decreases n,
{
    if n > 0 {
        lemma_light_members_once(devices, (n - 1) as nat);
        let i = n - 1;
        let d = devices[i];
        let listed = text::texts(d.members@);
        let before = light_members(devices, i as nat);
        if d.members@.len() == 0 {
            assert(before + listed =~= before);
        } else {
            assert(card_fault(devices, i) is None);
            let at = |k: int| light_member_fault(devices, i, k);
            lemma_no_fault(d.members@.len(), at);
            assert forall|k: int| 0 <= k < listed.len() implies !(before + listed.take(
                k,
            )).contains(#[trigger] listed[k]) by {
                assert(at(k) is None);
            }
            lemma_grown(before, listed, listed.len() as int);
            assert(listed.take(listed.len() as int) =~= listed);
        }
    }
}

/// In a configuration that keeps the rules only lights have members, each
/// member is a light without members of its own, so never the card itself, and
/// no light is listed twice, within a card or across cards.
pub proof fn lemma_valid_light_members(c: Config)
    requires
        c.fault() is None,
    ensures
        light_members(c.devices@, c.devices@.len()).no_duplicates(),
        forall|i: int, k: int|
            #![trigger c.devices@[i].members@[k]]
            0 <= i < c.devices@.len() && 0 <= k < c.devices@[i].members@.len() ==> {
                &&& c.devices@[i].kind == Kind::Light
                &&& c.devices@[i].members@[k]@ != c.devices@[i].name@
                &&& config::find_device(c.devices@, c.devices@[i].members@[k]@) matches Some(m)
                    && m.kind == Kind::Light && m.members@.len() == 0
            },
{
    let devices = c.devices@;
    let card = |i: int| card_fault(devices, i);
    lemma_no_fault(devices.len(), card);
    assert forall|i: int| 0 <= i < devices.len() implies #[trigger] card_fault(
        devices,
        i,
    ) is None by {
        assert(card(i) is None);
    }
    lemma_light_members_once(devices, devices.len());
    lemma_valid_names(c);
    assert forall|i: int, k: int|
        #![trigger devices[i].members@[k]]
        0 <= i < devices.len() && 0 <= k < devices[i].members@.len() implies {
        &&& devices[i].kind == Kind::Light
        &&& devices[i].members@[k]@ != devices[i].name@
        &&& config::find_device(devices, devices[i].members@[k]@) matches Some(m) && m.kind
            == Kind::Light && m.members@.len() == 0
    } by {
        assert(card_fault(devices, i) is None);
        let at = |k: int| light_member_fault(devices, i, k);
        lemma_no_fault(devices[i].members@.len(), at);
        assert(at(k) is None);
    }
}

proof fn lemma_group_members_once(devices: Seq<Device>, groups: Seq<Group>, n: nat)
    requires
        n <= groups.len(),
        forall|i: int|
            0 <= i < groups.len() ==> #[trigger] group_fault(devices, groups, i) is None,
    ensures
        group_members(groups, n).no_duplicates(),
    decreases n,
{
    if n > 0 {
        lemma_group_members_once(devices, groups, (n - 1) as nat);
        let i = n - 1;
        let g = groups[i];
        let listed = text::texts(g.members@);
        let before = group_members(groups, i as nat);
        assert(group_fault(devices, groups, i) is None);
        let at = |k: int| group_member_fault(devices, groups, i, k);
        lemma_no_fault(g.members@.len(), at);
        assert forall|k: int| 0 <= k < listed.len() implies !(before + listed.take(k)).contains(
            #[trigger] listed[k],
        ) by {
            assert(at(k) is None);
        }
        lemma_grown(before, listed, listed.len() as int);
        assert(listed.take(listed.len() as int) =~= listed);
    }
}

/// In a configuration that keeps the rules no two groups share a name, every
/// group has members, each of them is a shutter, and no shutter is listed
/// twice, within a group or across groups.
pub proof fn lemma_valid_groups(c: Config)
    requires
        c.fault() is None,
    ensures
        group_members(c.groups@, c.groups@.len()).no_duplicates(),
        forall|i: int, j: int|
            0 <= i < j < c.groups@.len() ==> (#[trigger] c.groups@[i]).name@ != (
            #[trigger] c.groups@[j]).name@,
        forall|i: int| 0 <= i < c.groups@.len() ==> (#[trigger] c.groups@[i]).members@.len() > 0,
        forall|i: int, k: int|
            #![trigger c.groups@[i].members@[k]]
            0 <= i < c.groups@.len() && 0 <= k < c.groups@[i].members@.len() ==> (
            config::find_device(c.devices@, c.groups@[i].members@[k]@) matches Some(d) && d.kind
                == Kind::Shutter),
{
    let devices = c.devices@;
    let groups = c.groups@;
    let fault = |i: int| group_fault(devices, groups, i);
    lemma_no_fault(groups.len(), fault);
    assert forall|i: int| 0 <= i < groups.len() implies #[trigger] group_fault(
        devices,
        groups,
        i,
    ) is None by {
        assert(fault(i) is None);
    }
    lemma_group_members_once(devices, groups, groups.len());
    assert forall|i: int, j: int| 0 <= i < j < groups.len() implies (#[trigger] groups[i]).name@
        != (#[trigger] groups[j]).name@ by {
        assert(fault(j) is None);
    }
    assert forall|i: int| 0 <= i < groups.len() implies (#[trigger] groups[i]).members@.len()
        > 0 by {
        assert(fault(i) is None);
    }
    assert forall|i: int, k: int|
        #![trigger groups[i].members@[k]]
        0 <= i < groups.len() && 0 <= k < groups[i].members@.len() implies (config::find_device(
        devices,
        groups[i].members@[k]@,
    ) matches Some(d) && d.kind == Kind::Shutter) by {
        assert(group_fault(devices, groups, i) is None);
        let at = |k: int| group_member_fault(devices, groups, i, k);
        lemma_no_fault(groups[i].members@.len(), at);
        assert(at(k) is None);
    }
}

} // verus!
