//! What there is to operate and to look at.

use vstd::prelude::*;

use crate::config;
use crate::config::{Config, Device, Face, Graph, Group, Kind, Preset};
use crate::text;

verus! {

/// A preset as it is listed.
#[derive(Debug)]
pub struct PresetInfo {
    pub name: String,
    pub label: String,
    pub color: Option<String>,
}

/// A device as it is listed.
#[derive(Debug)]
pub struct DeviceInfo {
    pub name: String,
    pub label: String,
    pub kind: Kind,
    /// Whether it can be stopped.
    pub stop: bool,
    /// Whether it takes any colour.
    pub color_supported: bool,
    /// Whether it takes any brightness.
    pub brightness_supported: bool,
    pub presets: Vec<PresetInfo>,
    pub face: Option<Face>,
    pub members: Vec<String>,
}

/// A group as it is listed.
#[derive(Debug)]
pub struct GroupInfo {
    pub name: String,
    pub label: String,
    pub members: Vec<String>,
    /// Whether each of its members can be stopped.
    pub stop: bool,
}

/// A graph as it is listed.
#[derive(Debug)]
pub struct GraphInfo {
    pub name: String,
    pub label: String,
}

/// The entry lists that preset.
pub open spec fn lists_preset(info: PresetInfo, p: Preset) -> bool {
    &&& info.name@ == p.name@
    &&& info.label@ == config::either(p.label, p.name)
    &&& text::held(info.color) == text::held(p.color)
}

/// The entry lists that device.
pub open spec fn lists_device(info: DeviceInfo, d: Device) -> bool {
    &&& info.name@ == d.name@
    &&& info.label@ == config::either(d.label, d.name)
    &&& info.kind == d.kind
    &&& info.stop == d.stop is Some
    &&& info.color_supported == d.color is Some
    &&& info.brightness_supported == d.brightness is Some
    &&& info.presets@.len() == d.presets@.len()
    &&& forall|k: int|
        0 <= k < d.presets@.len() ==> lists_preset(#[trigger] info.presets@[k], d.presets@[k])
    &&& info.face == d.face
    &&& text::texts(info.members@) == text::texts(d.members@)
}

/// Every member of a group that is a device can be stopped.
pub open spec fn all_stop(devices: Seq<Device>, members: Seq<String>) -> bool {
    forall|k: int|
        0 <= k < members.len() ==> (config::find_device(devices, (#[trigger] members[k])@)
            matches Some(d) ==> d.stop is Some)
}

/// The entry lists that group.
pub open spec fn lists_group(info: GroupInfo, devices: Seq<Device>, g: Group) -> bool {
    &&& info.name@ == g.name@
    &&& info.label@ == config::either(g.label, g.name)
    &&& text::texts(info.members@) == text::texts(g.members@)
    &&& info.stop == all_stop(devices, g.members@)
}

/// The entry lists that graph.
pub open spec fn lists_graph(info: GraphInfo, g: Graph) -> bool {
    info.name@ == g.name@ && info.label@ == config::either(g.label, g.name)
}

fn copy_texts(list: &Vec<String>) -> (r: Vec<String>)
    ensures
        text::texts(r@) == text::texts(list@),
{
    let mut r: Vec<String> = Vec::new();
    let mut i: usize = 0;
    while i < list.len()
        invariant
            i <= list.len(),
            text::texts(r@) == text::texts(list@).take(i as int),
        decreases list.len() - i,
    {
        let ghost done = r@;
        r.push(list[i].clone());
        assert(text::texts(r@) =~= text::texts(done).push(list@[i as int]@));
        assert(text::texts(list@).take(i + 1) =~= text::texts(list@).take(i as int).push(
            list@[i as int]@,
        ));
        i += 1;
    }
    assert(text::texts(list@).take(list@.len() as int) =~= text::texts(list@));
    r
}

fn list_presets(presets: &Vec<Preset>) -> (r: Vec<PresetInfo>)
    ensures
        r@.len() == presets@.len(),
        forall|k: int| 0 <= k < r@.len() ==> lists_preset(#[trigger] r@[k], presets@[k]),
{
    let mut r: Vec<PresetInfo> = Vec::new();
    let mut i: usize = 0;
    while i < presets.len()
        invariant
            i <= presets.len(),
            r@.len() == i,
            forall|k: int| 0 <= k < i ==> lists_preset(#[trigger] r@[k], presets@[k]),
        decreases presets.len() - i,
    {
        let p = &presets[i];
        r.push(
            PresetInfo {
                name: p.name.clone(),
                label: p.label().to_owned(),
                color: match &p.color {
                    Some(c) => Some(c.clone()),
                    None => None,
                },
            },
        );
        i += 1;
    }
    r
}

/// The devices, in the order of the configuration.
pub fn list_devices(config: &Config) -> (r: Vec<DeviceInfo>)
    ensures
        r@.len() == config.devices@.len(),
        forall|i: int| 0 <= i < r@.len() ==> lists_device(#[trigger] r@[i], config.devices@[i]),
{
    let mut r: Vec<DeviceInfo> = Vec::new();
    let mut i: usize = 0;
    while i < config.devices.len()
        invariant
            i <= config.devices.len(),
            r@.len() == i,
            forall|k: int| 0 <= k < i ==> lists_device(#[trigger] r@[k], config.devices@[k]),
        decreases config.devices.len() - i,
    {
        let d = &config.devices[i];
        r.push(
            DeviceInfo {
                name: d.name.clone(),
                label: d.label().to_owned(),
                kind: d.kind,
                stop: d.stop_cmd().is_some(),
                color_supported: d.color_cmd().is_some(),
                brightness_supported: d.brightness_cmd().is_some(),
                presets: list_presets(&d.presets),
                face: d.face,
                members: copy_texts(&d.members),
            },
        );
        i += 1;
    }
    r
}

fn can_all_stop(config: &Config, members: &Vec<String>) -> (r: bool)
    ensures
        r == all_stop(config.devices@, members@),
{
    let mut i: usize = 0;
    while i < members.len()
        invariant
            i <= members.len(),
            forall|k: int|
                0 <= k < i ==> (config::find_device(config.devices@, (#[trigger] members@[k])@)
                    matches Some(d) ==> d.stop is Some),
        decreases members.len() - i,
    {
        if let Some(d) = config.find(members[i].as_str()) {
            if d.stop_cmd().is_none() {
                assert(config::find_device(config.devices@, members@[i as int]@) == Some(*d));
                return false;
            }
        }
        i += 1;
    }
    true
}

/// The groups, in the order of the configuration.
pub fn list_groups(config: &Config) -> (r: Vec<GroupInfo>)
    ensures
        r@.len() == config.groups@.len(),
        forall|i: int|
            0 <= i < r@.len() ==> lists_group(
                #[trigger] r@[i],
                config.devices@,
                config.groups@[i],
            ),
{
    let mut r: Vec<GroupInfo> = Vec::new();
    let mut i: usize = 0;
    while i < config.groups.len()
        invariant
            i <= config.groups.len(),
            r@.len() == i,
            forall|k: int|
                0 <= k < i ==> lists_group(#[trigger] r@[k], config.devices@, config.groups@[k]),
        decreases config.groups.len() - i,
    {
        let g = &config.groups[i];
        r.push(
            GroupInfo {
                name: g.name.clone(),
                label: g.label().to_owned(),
                members: copy_texts(&g.members),
                stop: can_all_stop(config, &g.members),
            },
        );
        i += 1;
    }
    r
}

/// The graphs, in the order of the configuration.
pub fn list_graphs(config: &Config) -> (r: Vec<GraphInfo>)
    ensures
        r@.len() == config.graphs@.len(),
        forall|i: int| 0 <= i < r@.len() ==> lists_graph(#[trigger] r@[i], config.graphs@[i]),
{
    let mut r: Vec<GraphInfo> = Vec::new();
    let mut i: usize = 0;
    while i < config.graphs.len()
        invariant
            i <= config.graphs.len(),
            r@.len() == i,
            forall|k: int| 0 <= k < i ==> lists_graph(#[trigger] r@[k], config.graphs@[k]),
        decreases config.graphs.len() - i,
    {
        let g = &config.graphs[i];
        r.push(GraphInfo { name: g.name.clone(), label: g.label().to_owned() });
        i += 1;
    }
    r
}

} // verus!
