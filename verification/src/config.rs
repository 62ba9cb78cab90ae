//! The configuration: logical devices and the command lines behind them.

use vstd::prelude::*;

use crate::dict;
use crate::dict::Dict;
use crate::text;

verus! {

/// The kind of a device. It decides the verbs of the device and how its state
/// is read.
#[derive(Debug, Clone, Copy, PartialEq, Eq, Structural)]
pub enum Kind {
    Shutter,
    Light,
    Switch,
}

impl Default for Kind {
    fn default() -> (kind: Kind)
        ensures
            kind == Kind::Shutter,
    {
        Kind::Shutter
    }
}

/// The face a switch is shown with. It changes the display only.
#[derive(Debug, Clone, Copy, PartialEq, Eq, Structural)]
pub enum Face {
    Light,
}

/// A named colour or colour temperature of a light, as a complete command line.
#[derive(Debug, Clone)]
pub struct Preset {
    pub name: String,
    pub label: Option<String>,
    /// A CSS colour for the swatch. Its form is not checked.
    pub color: Option<String>,
    pub cmd: Vec<String>,
}

/// The whole configuration.
#[derive(Debug)]
pub struct Config {
    pub bind: String,
    pub devices: Vec<Device>,
    pub groups: Vec<Group>,
    pub graphs: Vec<Graph>,
    pub health: Option<Health>,
    pub execution: ExecSettings,
    pub cache: CacheSettings,
    pub push: Option<Push>,
    pub mesh: Option<Mesh>,
}

/// Limits on running the commands of devices.
#[derive(Debug, Clone)]
pub struct ExecSettings {
    /// The longest that one command may run, in milliseconds.
    pub timeout_ms: u64,
}

/// How long a state that was read may be reused.
#[derive(Debug, Clone)]
pub struct CacheSettings {
    /// In milliseconds.
    pub state_ttl_ms: u64,
}

/// The subscription to state changes of lights.
#[derive(Debug, Clone)]
pub struct Push {
    /// The command that prints one change per line for as long as it runs.
    pub listen: Vec<String>,
}

/// The query for the radio mesh.
#[derive(Debug, Clone)]
pub struct Mesh {
    pub label: Option<String>,
    pub command: Vec<String>,
    /// How long a snapshot counts as fresh, in milliseconds.
    pub ttl_ms: u64,
    /// The longest that the query may run, in milliseconds.
    pub timeout_ms: u64,
    pub thresholds: MeshThresholds,
    /// Display names of the nodes, by alias.
    pub labels: Option<Dict<String>>,
}

/// The limits by which a mesh link is graded.
#[derive(Debug, Clone, Copy, PartialEq, Eq, Structural)]
pub struct MeshThresholds {
    /// A link quality up to this one is at best fair.
    pub lqi_fair: u8,
    /// A link quality up to this one is weak.
    pub lqi_weak: u8,
    /// A frame error rate from this one on makes a link at best weak.
    pub fer_weak: u8,
}

/// Devices that are operated together.
#[derive(Debug, Clone)]
pub struct Group {
    pub name: String,
    pub label: Option<String>,
    /// The names of the devices, in the order in which they are operated.
    pub members: Vec<String>,
}

/// A chart that is read with a command line.
#[derive(Debug, Clone)]
pub struct Graph {
    pub name: String,
    pub label: Option<String>,
    /// The unit of the view of today.
    pub unit: String,
    /// The unit of the views by day; `unit` where there is none.
    pub unit_daily: Option<String>,
    /// The form of the chart, handed on as it is.
    pub chart: Option<String>,
    /// The command line, with exactly one `{period}` in it.
    pub query: Vec<String>,
    /// Display names of the series.
    pub series_labels: Option<Dict<String>>,
}

/// The report on the health of a machine.
#[derive(Debug, Clone)]
pub struct Health {
    pub label: Option<String>,
    pub command: Vec<String>,
    /// Display names of the metrics.
    pub labels: Option<Dict<String>>,
}

/// A logical device.
#[derive(Debug, Clone)]
pub struct Device {
    pub name: String,
    pub label: Option<String>,
    pub kind: Kind,
    pub get_state: Vec<String>,
    pub open: Option<Vec<String>>,
    pub close: Option<Vec<String>>,
    pub stop: Option<Vec<String>>,
    pub on: Option<Vec<String>>,
    pub off: Option<Vec<String>>,
    /// A command line with exactly one `{color}` in it.
    pub color: Option<Vec<String>>,
    /// A command line with exactly one `{brightness}` in it.
    pub brightness: Option<Vec<String>>,
    pub presets: Vec<Preset>,
    pub face: Option<Face>,
    /// The lights that are shown inside the card of this light.
    pub members: Vec<String>,
    /// The lane in which the commands of this device wait for each other.
    pub lane: Option<String>,
    /// The node that stands for this light in the subscription.
    pub node_id: Option<u64>,
}

/// The limit on device commands where none is configured.
pub fn default_exec_timeout_ms() -> (ms: u64)
    ensures
        ms == 15_000,
{
    15_000
}

/// The address that is bound where none is configured.
pub fn default_bind() -> (bind: String)
    ensures
        bind@ == "0.0.0.0:8080"@,
{
    "0.0.0.0:8080".to_owned()
}

impl Default for ExecSettings {
    fn default() -> (settings: ExecSettings)
        ensures
            settings.timeout_ms == 15_000,
    {
        ExecSettings { timeout_ms: default_exec_timeout_ms() }
    }
}

impl Default for MeshThresholds {
    fn default() -> (thresholds: MeshThresholds)
        ensures
            thresholds == (MeshThresholds { lqi_fair: 2, lqi_weak: 1, fer_weak: 30 }),
    {
        MeshThresholds { lqi_fair: 2, lqi_weak: 1, fer_weak: 30 }
    }
}

/// A text that may be given, with what stands for it where it is not.
pub open spec fn either(given: Option<String>, otherwise: String) -> Seq<char> {
    match given {
        Some(s) => s@,
        None => otherwise@,
    }
}

fn or<'a>(given: &'a Option<String>, otherwise: &'a String) -> (r: &'a str)
    ensures
        r@ == either(*given, *otherwise),
{
    match given {
        Some(s) => s.as_str(),
        None => otherwise.as_str(),
    }
}

/// A command line that may be given.
pub open spec fn line(cmd: Option<Vec<String>>) -> Option<Seq<String>> {
    match cmd {
        Some(c) => Some(c@),
        None => None,
    }
}

/// A borrowed command line that may be given.
pub open spec fn lent_line(cmd: Option<&[String]>) -> Option<Seq<String>> {
    match cmd {
        Some(c) => Some(c@),
        None => None,
    }
}

fn lend(cmd: &Option<Vec<String>>) -> (r: Option<&[String]>)
    ensures
        lent_line(r) == line(*cmd),
{
    match cmd {
        Some(c) => Some(c.as_slice()),
        None => None,
    }
}

impl Preset {
    /// The name to show.
    pub fn label(&self) -> (r: &str)
        ensures
            r@ == either(self.label, self.name),
    {
        or(&self.label, &self.name)
    }
}

impl Group {
    /// The name to show.
    pub fn label(&self) -> (r: &str)
        ensures
            r@ == either(self.label, self.name),
    {
        or(&self.label, &self.name)
    }
}

impl Graph {
    /// The name to show.
    pub fn label(&self) -> (r: &str)
        ensures
            r@ == either(self.label, self.name),
    {
        or(&self.label, &self.name)
    }

    /// The unit of the views by day.
    pub open spec fn daily_unit(self) -> Seq<char> {
        either(self.unit_daily, self.unit)
    }

    /// The unit of the view of a period.
    pub open spec fn unit_in(self, period: Seq<char>) -> Seq<char> {
        if period == "today"@ {
            self.unit@
        } else {
            self.daily_unit()
        }
    }

    /// The unit of the view of a period.
    pub fn unit_for(&self, period: &str) -> (r: &str)
        ensures
            r@ == self.unit_in(period@),
    {
        if text::same(period, "today") {
            self.unit.as_str()
        } else {
            or(&self.unit_daily, &self.unit)
        }
    }

    /// The unit of a summary: that of the views by day.
    pub fn summary_unit(&self) -> (r: &str)
        ensures
            r@ == self.daily_unit(),
    {
        or(&self.unit_daily, &self.unit)
    }
}

/// The first preset of that name.
pub open spec fn find_preset(presets: Seq<Preset>, name: Seq<char>) -> Option<Preset>
    decreases presets.len(),
{
    if presets.len() == 0 {
        None
    } else if presets.first().name@ == name {
        Some(presets.first())
    } else {
        find_preset(presets.drop_first(), name)
    }
}

impl Device {
    /// The name to show.
    pub fn label(&self) -> (r: &str)
        ensures
            r@ == either(self.label, self.name),
    {
        or(&self.label, &self.name)
    }

    /// The lane in which the commands of this device wait for each other: its
    /// own where none is given.
    pub fn exec_lane(&self) -> (r: &str)
        ensures
            r@ == either(self.lane, self.name),
    {
        or(&self.lane, &self.name)
    }

    pub fn open_cmd(&self) -> (r: Option<&[String]>)
        ensures
            lent_line(r) == line(self.open),
    {
        lend(&self.open)
    }

    pub fn close_cmd(&self) -> (r: Option<&[String]>)
        ensures
            lent_line(r) == line(self.close),
    {
        lend(&self.close)
    }

    pub fn stop_cmd(&self) -> (r: Option<&[String]>)
        ensures
            lent_line(r) == line(self.stop),
    {
        lend(&self.stop)
    }

    pub fn on_cmd(&self) -> (r: Option<&[String]>)
        ensures
            lent_line(r) == line(self.on),
    {
        lend(&self.on)
    }

    pub fn off_cmd(&self) -> (r: Option<&[String]>)
        ensures
            lent_line(r) == line(self.off),
    {
        lend(&self.off)
    }

    pub fn color_cmd(&self) -> (r: Option<&[String]>)
        ensures
            lent_line(r) == line(self.color),
    {
        lend(&self.color)
    }

    pub fn brightness_cmd(&self) -> (r: Option<&[String]>)
        ensures
            lent_line(r) == line(self.brightness),
    {
        lend(&self.brightness)
    }

    /// The command line of the preset of that name.
    pub open spec fn preset_line(self, name: Seq<char>) -> Option<Seq<String>> {
        match find_preset(self.presets@, name) {
            Some(p) => Some(p.cmd@),
            None => None,
        }
    }

    /// The command line of the preset of that name.
    pub fn preset_cmd(&self, name: &str) -> (r: Option<&[String]>)
        ensures
            lent_line(r) == self.preset_line(name@),
    {
        let ghost all = self.presets@;
        let mut i: usize = 0;
        assert(all.skip(0) =~= all);
        while i < self.presets.len()
            invariant
                i <= self.presets.len(),
                all == self.presets@,
                find_preset(all, name@) == find_preset(all.skip(i as int), name@),
            decreases self.presets.len() - i,
        {
            assert(all.skip(i as int).drop_first() =~= all.skip(i + 1));
            if text::same(self.presets[i].name.as_str(), name) {
                return Some(self.presets[i].cmd.as_slice());
            }
            i += 1;
        }
        None
    }
}

/// The first device of that name.
pub open spec fn find_device(devices: Seq<Device>, name: Seq<char>) -> Option<Device>
    decreases devices.len(),
{
    if devices.len() == 0 {
        None
    } else if devices.first().name@ == name {
        Some(devices.first())
    } else {
        find_device(devices.drop_first(), name)
    }
}

/// The first group of that name.
pub open spec fn find_group(groups: Seq<Group>, name: Seq<char>) -> Option<Group>
    decreases groups.len(),
{
    if groups.len() == 0 {
        None
    } else if groups.first().name@ == name {
        Some(groups.first())
    } else {
        find_group(groups.drop_first(), name)
    }
}

/// The first graph of that name.
pub open spec fn find_graph(graphs: Seq<Graph>, name: Seq<char>) -> Option<Graph>
    decreases graphs.len(),
{
    if graphs.len() == 0 {
        None
    } else if graphs.first().name@ == name {
        Some(graphs.first())
    } else {
        find_graph(graphs.drop_first(), name)
    }
}

impl Config {
    /// The first device of that name.
    pub fn find(&self, name: &str) -> (r: Option<&Device>)
        ensures
            dict::lent(r) == find_device(self.devices@, name@),
    {
        let ghost all = self.devices@;
        let mut i: usize = 0;
        assert(all.skip(0) =~= all);
        while i < self.devices.len()
            invariant
                i <= self.devices.len(),
                all == self.devices@,
                find_device(all, name@) == find_device(all.skip(i as int), name@),
            decreases self.devices.len() - i,
        {
            assert(all.skip(i as int).drop_first() =~= all.skip(i + 1));
            if text::same(self.devices[i].name.as_str(), name) {
                return Some(&self.devices[i]);
            }
            i += 1;
        }
        None
    }

    /// The first group of that name.
    pub fn find_group(&self, name: &str) -> (r: Option<&Group>)
        ensures
            dict::lent(r) == find_group(self.groups@, name@),
    {
        let ghost all = self.groups@;
        let mut i: usize = 0;
        assert(all.skip(0) =~= all);
        while i < self.groups.len()
            invariant
                i <= self.groups.len(),
                all == self.groups@,
                find_group(all, name@) == find_group(all.skip(i as int), name@),
            decreases self.groups.len() - i,
        {
            assert(all.skip(i as int).drop_first() =~= all.skip(i + 1));
            if text::same(self.groups[i].name.as_str(), name) {
                return Some(&self.groups[i]);
            }
            i += 1;
        }
        None
    }

    /// The first graph of that name.
    pub fn find_graph(&self, name: &str) -> (r: Option<&Graph>)
        ensures
            dict::lent(r) == find_graph(self.graphs@, name@),
    {
        let ghost all = self.graphs@;
        let mut i: usize = 0;
        assert(all.skip(0) =~= all);
        while i < self.graphs.len()
            invariant
                i <= self.graphs.len(),
                all == self.graphs@,
                find_graph(all, name@) == find_graph(all.skip(i as int), name@),
            decreases self.graphs.len() - i,
        {
            assert(all.skip(i as int).drop_first() =~= all.skip(i + 1));
            if text::same(self.graphs[i].name.as_str(), name) {
                return Some(&self.graphs[i]);
            }
            i += 1;
        }
        None
    }

    /// How long a snapshot of the mesh counts as fresh, in milliseconds.
    pub fn mesh_ttl_ms(&self) -> (ms: u64)
        ensures
            ms == match self.mesh {
                Some(mesh) => mesh.ttl_ms,
                None => 0,
            },
    {
        match &self.mesh {
            Some(mesh) => mesh.ttl_ms,
            None => 0,
        }
    }
}

/// The lights that have no node, where there is a subscription that would need
/// one. Such a light is read as before.
pub open spec fn without_node(devices: Seq<Device>) -> Seq<Seq<char>> {
    devices.filter_map(
        |d: Device|
            if d.kind == Kind::Light && d.node_id is None {
                Some(d.name@)
            } else {
                None
            },
    )
}

/// The names of the lights to warn about at the start: those without a node,
/// and none where there is no subscription.
pub fn warn_missing_node_ids(config: &Config) -> (names: Vec<String>)
    ensures
        text::texts(names@) == if config.push is Some {
            without_node(config.devices@)
        } else {
            Seq::<Seq<char>>::empty()
        },
{
    let mut names: Vec<String> = Vec::new();
    assert(text::texts(names@) =~= Seq::<Seq<char>>::empty());
    if config.push.is_none() {
        return names;
    }
    let ghost all = config.devices@;
    let ghost rule = |d: Device|
        if d.kind == Kind::Light && d.node_id is None {
            Some(d.name@)
        } else {
            None
        };
    assert(all.take(0).filter_map(rule) =~= Seq::<Seq<char>>::empty());
    let mut i: usize = 0;
    while i < config.devices.len()
        invariant
            i <= config.devices.len(),
            all == config.devices@,
            rule == (|d: Device|
                if d.kind == Kind::Light && d.node_id is None {
                    Some(d.name@)
                } else {
                    None
                }),
            text::texts(names@) == all.take(i as int).filter_map(rule),
        decreases config.devices.len() - i,
    {
        let ghost done = names@;
        proof {
            all.lemma_filter_map_take_succ(rule, i as int);
        }
        let d = &config.devices[i];
        if d.kind == Kind::Light && d.node_id.is_none() {
            names.push(d.name.clone());
            assert(text::texts(names@) =~= text::texts(done) + seq![d.name@]);
        } else {
            assert(text::texts(done) + Seq::<Seq<char>>::empty() =~= text::texts(done));
        }
        i += 1;
    }
    assert(all.take(all.len() as int) =~= all);
    names
}

} // verus!
