//! The states of lights as they are pushed: what the listener reported, held
//! for as long as the listener lives.

use vstd::prelude::*;

use crate::config::{Config, Device, Kind};
use crate::dict::Dict;
use crate::json;
use crate::json::{Json, JsonView};
use crate::state;
use crate::state::State;
use crate::text;
use crate::wire;

verus! {

/// A value that came from the listener.
pub const SOURCE_PUSH: &'static str = "push";

/// A value that came from reading the device.
pub const SOURCE_READ: &'static str = "read";

/// The attribute that holds whether a light is on.
pub const ONOFF_KEY: &'static str = "onoff/on-off";

/// A change that is told to those who watch.
#[derive(Debug, Clone)]
pub struct StateEvent {
    pub device: String,
    pub state: State,
    pub source: &'static str,
    /// Never set: an event only comes of a value that is trusted.
    pub stale: bool,
}

/// What a change says.
pub struct EventModel {
    pub device: Seq<char>,
    pub state: State,
    pub source: Seq<char>,
    pub stale: bool,
}

impl View for StateEvent {
    type V = EventModel;

    open spec fn view(&self) -> EventModel {
        EventModel {
            device: self.device@,
            state: self.state,
            source: self.source@,
            stale: self.stale,
        }
    }
}

/// What a list of changes says.
pub open spec fn event_models(events: Seq<StateEvent>) -> Seq<EventModel> {
    Seq::new(events.len(), |i: int| events[i]@)
}

/// One line of the listener: an attribute of a node has this value.
#[derive(Debug)]
pub struct PushEvent {
    pub node_id: u64,
    pub cluster: String,
    pub attribute: String,
    pub value: Json,
}

/// What a line of the listener says.
pub struct ReportModel {
    pub node_id: u64,
    pub cluster: Seq<char>,
    pub attribute: Seq<char>,
    pub value: JsonView,
}

impl View for PushEvent {
    type V = ReportModel;

    open spec fn view(&self) -> ReportModel {
        ReportModel {
            node_id: self.node_id,
            cluster: self.cluster@,
            attribute: self.attribute@,
            value: self.value@,
        }
    }
}

/// The name of an attribute within its cluster.
pub open spec fn key_of(cluster: Seq<char>, attribute: Seq<char>) -> Seq<char> {
    cluster + "/"@ + attribute
}

/// The name of an attribute within its cluster.
pub fn attr_key(cluster: &str, attribute: &str) -> (key: String)
    ensures
        key@ == key_of(cluster@, attribute@),
{
    text::join3(cluster, "/", attribute)
}

/// The report that a document of the listener holds; one without a node, a
/// cluster, an attribute or a value holds none.
pub open spec fn report(raw: JsonView) -> Option<ReportModel> {
    match (
        raw.unsigned_at("node_id"@),
        raw.text_at("cluster"@),
        raw.text_at("attribute"@),
        raw.field("value"@),
    ) {
        (Some(node_id), Some(cluster), Some(attribute), Some(value)) => Some(
            ReportModel { node_id, cluster, attribute, value },
        ),
        _ => None,
    }
}

/// The report of a line that may hold one.
pub open spec fn reported(e: Option<PushEvent>) -> Option<ReportModel> {
    match e {
        Some(e) => Some(e@),
        None => None,
    }
}

/// The report that a document of the listener holds.
pub fn read_listen_event(raw: &Json) -> (r: Option<PushEvent>)
    ensures
        reported(r) == report(raw@),
{
    let node_id = match raw.u64_at("node_id") {
        Some(n) => n,
        None => return None,
    };
    let cluster = match raw.str_at("cluster") {
        Some(c) => c,
        None => return None,
    };
    let attribute = match raw.str_at("attribute") {
        Some(a) => a,
        None => return None,
    };
    let value = match raw.get("value") {
        Some(v) => v,
        None => return None,
    };
    Some(
        PushEvent {
            node_id,
            cluster: cluster.to_owned(),
            attribute: attribute.to_owned(),
            value: value.clone(),
        },
    )
}

/// The report of a line that was read as this document, if as any.
pub open spec fn report_in(document: Option<JsonView>) -> Option<ReportModel> {
    match document {
        Some(raw) => report(raw),
        None => None,
    }
}

/// The report that a line of the listener holds.
pub fn parse_mat_listen_event(line: &str) -> (r: Option<PushEvent>)
    ensures
        reported(r) == report_in(wire::document(line@)),
{
    match wire::parse(line) {
        Some(raw) => read_listen_event(&raw),
        None => None,
    }
}

/// What was reported of one light.
#[derive(Debug)]
struct Slot {
    /// The last value of each attribute.
    attrs: Dict<Json>,
    /// Where the last value of the attribute for on and off came from.
    onoff_source: Option<&'static str>,
}

/// What is known of one light.
pub struct SlotModel {
    pub attrs: Map<Seq<char>, JsonView>,
    pub onoff_source: Option<Seq<char>>,
}

impl View for Slot {
    type V = SlotModel;

    closed spec fn view(&self) -> SlotModel {
        SlotModel {
            attrs: self.attrs@.map_values(|j: Json| j@),
            onoff_source: text::read(self.onoff_source),
        }
    }
}

impl SlotModel {
    /// Nothing is known.
    pub open spec fn blank() -> SlotModel {
        SlotModel { attrs: Map::empty(), onoff_source: None }
    }

    /// Whether the light is on, where that is known.
    pub open spec fn state(self) -> Option<State> {
        match self.attrs.get(ONOFF_KEY@) {
            Some(v) => match state::onoff_state(v) {
                State::Unknown => None,
                s => Some(s),
            },
            None => None,
        }
    }

    /// Whether the light is on and where that is known from.
    pub open spec fn state_with_source(self) -> Option<(State, Seq<char>)> {
        match (self.state(), self.onoff_source) {
            (Some(s), Some(source)) => Some((s, source)),
            _ => None,
        }
    }

    /// What is known after an attribute got a value.
    pub open spec fn with(self, key: Seq<char>, value: JsonView, source: Seq<char>) -> SlotModel {
        SlotModel {
            attrs: self.attrs.insert(key, value),
            onoff_source: if key == ONOFF_KEY@ {
                Some(source)
            } else {
                self.onoff_source
            },
        }
    }
}

impl Slot {
    fn new() -> (s: Slot)
        ensures
            s@ == SlotModel::blank(),
    {
        let s = Slot { attrs: Dict::new(), onoff_source: None };
        assert(s@.attrs =~= Map::<Seq<char>, JsonView>::empty());
        s
    }

    fn state(&self) -> (r: Option<State>)
        ensures
            r == self@.state(),
    {
        match self.attrs.get(ONOFF_KEY) {
            Some(v) => match state::normalize_onoff_value(v) {
                State::Unknown => None,
                s => Some(s),
            },
            None => None,
        }
    }

    fn state_with_source(&self) -> (r: Option<(State, &'static str)>)
        ensures
            match r {
                Some((s, source)) => self@.state_with_source() == Some((s, source@)),
                None => self@.state_with_source() is None,
            },
    {
        match (self.state(), self.onoff_source) {
            (Some(s), Some(source)) => Some((s, source)),
            _ => None,
        }
    }

    fn set(&mut self, key: &str, value: Json, source: &'static str)
        ensures
            final(self)@ == old(self)@.with(key@, value@, source@),
    {
        let ghost before = self.attrs@;
        let ghost v = value;
        self.attrs.insert(key.to_owned(), value);
        assert(self.attrs@.map_values(|j: Json| j@) =~= before.map_values(|j: Json| j@).insert(
            key@,
            v@,
        ));
        if text::same(key, ONOFF_KEY) {
            self.onoff_source = Some(source);
        }
    }
}

/// The lights that are pushed, and what is known of them. Whether a value can
/// be trusted depends only on whether the listener lives, not on its age.
#[derive(Debug)]
pub struct PushStore {
    /// The pushed lights in the order of the configuration, each with the node
    /// that stands for it. One node may stand for several lights.
    lights: Vec<(u64, String)>,
    connected: bool,
    generation: u64,
    slots: Dict<Slot>,
    open: bool,
}

/// What is known of the pushed lights.
pub struct PushModel {
    /// The pushed lights in order, each with the node that stands for it.
    pub lights: Seq<(u64, Seq<char>)>,
    /// The listener lives.
    pub connected: bool,
    /// Changes whenever the listener comes or goes.
    pub generation: u64,
    pub slots: Map<Seq<char>, SlotModel>,
    /// Changes are still told.
    pub open: bool,
}

/// The light that a device is in the subscription, if any: a light with a
/// node.
pub open spec fn light_of(d: Device) -> Option<(u64, Seq<char>)> {
    match (d.kind, d.node_id) {
        (Kind::Light, Some(node)) => Some((node, d.name@)),
        _ => None,
    }
}

/// The pushed lights of a configuration, in its order.
pub open spec fn lights_in(devices: Seq<Device>) -> Seq<(u64, Seq<char>)> {
    devices.filter_map(|d: Device| light_of(d))
}

/// What a list of pushed lights says.
pub open spec fn pairs(list: Seq<(u64, String)>) -> Seq<(u64, Seq<char>)> {
    Seq::new(list.len(), |i: int| (list[i].0, list[i].1@))
}

impl View for PushStore {
    type V = PushModel;

    closed spec fn view(&self) -> PushModel {
        PushModel {
            lights: pairs(self.lights@),
            connected: self.connected,
            generation: self.generation,
            slots: self.slots@.map_values(|s: Slot| s@),
            open: self.open,
        }
    }
}

impl PushModel {
    /// At the start the listener does not live and nothing is known.
    pub open spec fn fresh(devices: Seq<Device>) -> PushModel {
        PushModel {
            lights: lights_in(devices),
            connected: false,
            generation: 0,
            slots: Map::empty(),
            open: true,
        }
    }

    /// The device is one of the pushed lights.
    pub open spec fn tracks(self, device: Seq<char>) -> bool {
        exists|i: int| 0 <= i < self.lights.len() && (#[trigger] self.lights[i]).1 == device
    }

    /// What is known of a light.
    pub open spec fn slot(self, device: Seq<char>) -> SlotModel {
        match self.slots.get(device) {
            Some(s) => s,
            None => SlotModel::blank(),
        }
    }

    /// The state of a light that can be answered without reading it, and where
    /// it is known from.
    pub open spec fn primed(self, device: Seq<char>) -> Option<(State, Seq<char>)> {
        if self.connected {
            match self.slots.get(device) {
                Some(s) => s.state_with_source(),
                None => None,
            }
        } else {
            None
        }
    }

    /// The listener has come or gone: whatever was known no longer counts.
    pub open spec fn with_connection(self, connected: bool) -> PushModel {
        PushModel {
            connected,
            generation: if self.generation == u64::MAX {
                0
            } else {
                (self.generation + 1) as u64
            },
            slots: Map::empty(),
            ..self
        }
    }

    /// An attribute of a light has got a value.
    pub open spec fn updated(
        self,
        device: Seq<char>,
        key: Seq<char>,
        value: JsonView,
        source: Seq<char>,
    ) -> PushModel {
        PushModel {
            slots: self.slots.insert(device, self.slot(device).with(key, value, source)),
            ..self
        }
    }

    /// The change to tell when an attribute of a light gets a value: its state
    /// has changed to a known one.
    pub open spec fn update_event(
        self,
        device: Seq<char>,
        key: Seq<char>,
        value: JsonView,
        source: Seq<char>,
    ) -> Seq<EventModel> {
        let after = self.slot(device).with(key, value, source).state();
        match after {
            Some(state) => if self.open && after != self.slot(device).state() {
                seq![EventModel { device, state, source, stale: false }]
            } else {
                Seq::empty()
            },
            None => Seq::empty(),
        }
    }

    /// A state that was read is taken over: the device is pushed, the state is
    /// on or off, and the listener has lived since before the read.
    pub open spec fn takes_baseline(
        self,
        device: Seq<char>,
        state: State,
        generation: u64,
    ) -> bool {
        self.tracks(device) && state::onoff_value(state) is Some && self.connected
            && self.generation == generation
    }

    /// A state was read.
    pub open spec fn with_baseline(
        self,
        device: Seq<char>,
        state: State,
        generation: u64,
    ) -> PushModel {
        if self.takes_baseline(device, state, generation) {
            self.updated(
                device,
                ONOFF_KEY@,
                JsonView::Bool(state::onoff_value(state)->0),
                SOURCE_READ@,
            )
        } else {
            self
        }
    }

    /// The changes to tell when a state was read.
    pub open spec fn baseline_events(
        self,
        device: Seq<char>,
        state: State,
        generation: u64,
    ) -> Seq<EventModel> {
        if self.takes_baseline(device, state, generation) {
            self.update_event(
                device,
                ONOFF_KEY@,
                JsonView::Bool(state::onoff_value(state)->0),
                SOURCE_READ@,
            )
        } else {
            Seq::empty()
        }
    }

    /// A report was applied to the first `n` pushed lights.
    pub open spec fn applied_to(self, e: ReportModel, n: nat) -> PushModel
        decreases n,
    {
        if n == 0 {
            self
        } else {
            let m = self.applied_to(e, (n - 1) as nat);
            if self.lights[n - 1].0 == e.node_id {
                m.updated(
                    self.lights[n - 1].1,
                    key_of(e.cluster, e.attribute),
                    e.value,
                    SOURCE_PUSH@,
                )
            } else {
                m
            }
        }
    }

    /// The changes to tell when a report was applied to the first `n` pushed
    /// lights.
    pub open spec fn events_to(self, e: ReportModel, n: nat) -> Seq<EventModel>
        decreases n,
    {
        if n == 0 {
            Seq::empty()
        } else {
            let before = self.events_to(e, (n - 1) as nat);
            if self.lights[n - 1].0 == e.node_id {
                before + self.applied_to(e, (n - 1) as nat).update_event(
                    self.lights[n - 1].1,
                    key_of(e.cluster, e.attribute),
                    e.value,
                    SOURCE_PUSH@,
                )
            } else {
                before
            }
        }
    }

    /// A node stands for some light.
    pub open spec fn knows(self, node: u64) -> bool {
        exists|i: int| 0 <= i < self.lights.len() && (#[trigger] self.lights[i]).0 == node
    }

    /// A report was applied to every light that its node stands for.
    pub open spec fn applied(self, e: ReportModel) -> PushModel {
        self.applied_to(e, self.lights.len())
    }

    /// The changes to tell when a report was applied.
    pub open spec fn events(self, e: ReportModel) -> Seq<EventModel> {
        self.events_to(e, self.lights.len())
    }

    /// The node stands for the device.
    pub open spec fn stands_for(self, node: u64, device: Seq<char>) -> bool {
        exists|i: int|
            0 <= i < self.lights.len() && (#[trigger] self.lights[i]).0 == node
                && self.lights[i].1 == device
    }

    /// Two devices are moved by the same command: they are the same device, or
    /// one node stands for both.
    pub open spec fn siblings(self, device: Seq<char>, other: Seq<char>) -> bool {
        device == other || exists|j: int|
            0 <= j < self.lights.len() && (#[trigger] self.lights[j]).1 == other
                && self.stands_for(self.lights[j].0, device)
    }

    /// A command was sent to a device: what was known of it and of the lights
    /// that share its node no longer counts.
    pub open spec fn without(self, device: Seq<char>) -> PushModel {
        PushModel {
            slots: self.slots.remove_keys(Set::new(|other: Seq<char>| self.siblings(device, other))),
            ..self
        }
    }

    /// What a light is told as to one who begins to watch.
    pub open spec fn told(self, device: Seq<char>) -> Option<EventModel> {
        match self.primed(device) {
            Some((state, source)) => Some(EventModel { device, state, source, stale: false }),
            None => None,
        }
    }

    /// What one who begins to watch is told: every light that can be answered
    /// without reading it, in order.
    pub open spec fn snapshot(self) -> Seq<EventModel> {
        self.lights.filter_map(|t: (u64, Seq<char>)| self.told(t.1))
    }
}

impl PushStore {
    /// The pushed lights of a configuration, with nothing known of them.
    pub fn new(config: &Config) -> (store: PushStore)
        ensures
            store@ == PushModel::fresh(config.devices@),
    {
        let ghost all = config.devices@;
        let ghost rule = |d: Device| light_of(d);
        let mut lights: Vec<(u64, String)> = Vec::new();
        let mut i: usize = 0;
        assert(all.take(0).filter_map(rule) =~= Seq::<(u64, Seq<char>)>::empty());
        assert(pairs(lights@) =~= Seq::<(u64, Seq<char>)>::empty());
        while i < config.devices.len()
            invariant
                i <= config.devices.len(),
                all == config.devices@,
                rule == (|d: Device| light_of(d)),
                pairs(lights@) == all.take(i as int).filter_map(rule),
            decreases config.devices.len() - i,
        {
            let ghost done = lights@;
            let d = &config.devices[i];
            proof {
                all.lemma_filter_map_take_succ(rule, i as int);
                assert(pairs(done) + Seq::<(u64, Seq<char>)>::empty() =~= pairs(done));
            }
            if d.kind == Kind::Light {
                if let Some(node) = d.node_id {
                    lights.push((node, d.name.clone()));
                    assert(pairs(lights@) =~= pairs(done) + seq![(node, d.name@)]);
                }
            }
            i += 1;
        }
        assert(all.take(all.len() as int) =~= all);
        let store = PushStore {
            lights,
            connected: false,
            generation: 0,
            slots: Dict::new(),
            open: true,
        };
        assert(store@.slots =~= Map::<Seq<char>, SlotModel>::empty());
        store
    }

    /// Whether the device is one of the pushed lights.
    pub fn tracks(&self, device: &str) -> (r: bool)
        ensures
            r == self@.tracks(device@),
    {
        let mut i: usize = 0;
        while i < self.lights.len()
            invariant
                i <= self.lights.len(),
                forall|j: int| 0 <= j < i ==> (#[trigger] self@.lights[j]).1 != device@,
            decreases self.lights.len() - i,
        {
            if text::same(self.lights[i].1.as_str(), device) {
                assert(self@.lights[i as int].1 == device@);
                return true;
            }
            i += 1;
        }
        false
    }

    /// The state of a light that can be answered without reading it, and where
    /// it is known from.
    pub fn primed_state(&self, device: &str) -> (r: Option<(State, &'static str)>)
        ensures
            match r {
                Some((state, source)) => self@.primed(device@) == Some((state, source@)),
                None => self@.primed(device@) is None,
            },
    {
        if !self.connected {
            return None;
        }
        match self.slots.get(device) {
            Some(slot) => slot.state_with_source(),
            None => None,
        }
    }

    /// The number of the present connection. It is taken before a read begins
    /// and handed to `baseline` when the read has ended.
    pub fn generation(&self) -> (r: u64)
        ensures
            r == self@.generation,
    {
        self.generation
    }

    /// The listener has come or gone. What was known is dropped both times: it
    /// may have changed while nobody listened.
    pub fn set_connected(&mut self, connected: bool)
        ensures
            final(self)@ == old(self)@.with_connection(connected),
    {
        self.connected = connected;
        self.generation = if self.generation == u64::MAX {
            0
        } else {
            self.generation + 1
        };
        self.slots.clear();
        assert(self@.slots =~= Map::<Seq<char>, SlotModel>::empty());
    }

    /// Gives an attribute of a light a value, and notes the change to tell.
    fn update(
        &mut self,
        device: &str,
        key: &str,
        value: Json,
        source: &'static str,
        events: &mut Vec<StateEvent>,
    )
        ensures
            final(self)@ == old(self)@.updated(device@, key@, value@, source@),
            final(self).lights == old(self).lights,
            event_models(final(events)@) == event_models(old(events)@) + old(self)@.update_event(
                device@,
                key@,
                value@,
                source@,
            ),
    {
        let ghost known = self.slots@;
        let ghost told = events@;
        let ghost v = value@;
        let mut slot = match self.slots.remove(device) {
            Some(slot) => slot,
            None => Slot::new(),
        };
        assert(slot@ == old(self)@.slot(device@));
        let before = slot.state();
        slot.set(key, value, source);
        let after = slot.state();
        let ghost now = slot@;
        self.slots.insert(device.to_owned(), slot);
        assert(self@.slots =~= old(self)@.slots.insert(device@, now));
        match after {
            Some(state) => {
                let changed = match before {
                    Some(b) => b != state,
                    None => true,
                };
                if changed && self.open {
                    events.push(
                        StateEvent { device: device.to_owned(), state, source, stale: false },
                    );
                    assert(event_models(events@) =~= event_models(told)
                        + old(self)@.update_event(device@, key@, v, source@));
                } else {
                    assert(event_models(told) + Seq::<EventModel>::empty() =~= event_models(told));
                }
            },
            None => {
                assert(event_models(told) + Seq::<EventModel>::empty() =~= event_models(told));
            },
        }
    }

    /// Takes over a state that was read, unless the listener has come or gone
    /// since the read began. Gives the changes to tell.
    pub fn baseline(&mut self, device: &str, state: State, generation: u64) -> (events: Vec<
        StateEvent,
    >)
        ensures
            final(self)@ == old(self)@.with_baseline(device@, state, generation),
            event_models(events@) == old(self)@.baseline_events(device@, state, generation),
    {
        let mut events: Vec<StateEvent> = Vec::new();
        assert(event_models(events@) =~= Seq::<EventModel>::empty());
        if !self.tracks(device) {
            return events;
        }
        let value = match state::state_to_onoff_value(state) {
            Some(value) => value,
            None => return events,
        };
        if !self.connected || self.generation != generation {
            return events;
        }
        proof {
            let told = self@.update_event(device@, ONOFF_KEY@, value@, SOURCE_READ@);
            assert(Seq::<EventModel>::empty() + told =~= told);
        }
        self.update(device, ONOFF_KEY, value, SOURCE_READ, &mut events);
        events
    }

    /// Whether the node stands for the device.
    fn shares(&self, node: u64, device: &str) -> (r: bool)
        ensures
            r == self@.stands_for(node, device@),
    {
        let mut i: usize = 0;
        while i < self.lights.len()
            invariant
                i <= self.lights.len(),
                forall|j: int|
                    0 <= j < i ==> !((#[trigger] self@.lights[j]).0 == node && self@.lights[j].1
                        == device@),
            decreases self.lights.len() - i,
        {
            if self.lights[i].0 == node && text::same(self.lights[i].1.as_str(), device) {
                assert(self@.lights[i as int].0 == node);
                return true;
            }
            i += 1;
        }
        false
    }

    /// A command was sent to a device: what was known of it and of the lights
    /// that share its node is dropped. That it was sent does not confirm it.
    pub fn invalidate(&mut self, device: &str)
        ensures
            final(self)@ == old(self)@.without(device@),
    {
        let ghost m = self@;
        let ghost gone = |n: int, other: Seq<char>|
            exists|j: int|
                0 <= j < n && (#[trigger] m.lights[j]).1 == other && m.stands_for(
                    m.lights[j].0,
                    device@,
                );
        let mut j: usize = 0;
        assert(self@.slots =~= m.slots.remove_keys(Set::new(|other: Seq<char>| gone(0, other))));
        while j < self.lights.len()
            invariant
                j <= self.lights.len(),
                m == old(self)@,
                self.lights == old(self).lights,
                self@ == (PushModel { slots: self@.slots, ..m }),
                gone == (|n: int, other: Seq<char>|
                    exists|j: int|
                        0 <= j < n && (#[trigger] m.lights[j]).1 == other && m.stands_for(
                            m.lights[j].0,
                            device@,
                        )),
                self@.slots == m.slots.remove_keys(
                    Set::new(|other: Seq<char>| gone(j as int, other)),
                ),
            decreases self.lights.len() - j,
        {
            let ghost before = self@.slots;
            assert(m.lights[j as int] == (self.lights@[j as int].0, self.lights@[j as int].1@));
            assert(self@.lights == m.lights);
            if self.shares(self.lights[j].0, device) {
                let name = self.lights[j].1.clone();
                self.slots.remove(name.as_str());
                assert(self@.slots =~= before.remove(name@));
            }
            proof {
                let node = m.lights[j as int].0;
                let name = m.lights[j as int].1;
                assert forall|other: Seq<char>| #[trigger] gone(j + 1, other) == (gone(
                    j as int,
                    other,
                ) || (other == name && m.stands_for(node, device@))) by {}
                assert(self@.slots =~= m.slots.remove_keys(
                    Set::new(|other: Seq<char>| gone(j + 1, other)),
                ));
            }
            j += 1;
        }
        let ghost before = self@.slots;
        self.slots.remove(device);
        proof {
            assert(self@.slots =~= before.remove(device@));
            assert forall|other: Seq<char>| #[trigger] m.siblings(device@, other) == (gone(
                m.lights.len() as int,
                other,
            ) || other == device@) by {}
            assert(self@.slots =~= m.without(device@).slots);
        }
    }

    /// Takes in a report of the listener. Gives the changes to tell, or `None`
    /// where its node stands for no light.
    pub fn apply(&mut self, e: &PushEvent) -> (r: Option<Vec<StateEvent>>)
        ensures
            final(self)@ == old(self)@.applied(e@),
            match r {
                Some(events) => old(self)@.knows(e.node_id) && event_models(events@) == old(
                    self,
                )@.events(e@),
                None => !old(self)@.knows(e.node_id),
            },
    {
        let ghost m = self@;
        let key = attr_key(e.cluster.as_str(), e.attribute.as_str());
        let mut events: Vec<StateEvent> = Vec::new();
        let mut known = false;
        let mut i: usize = 0;
        assert(event_models(events@) =~= Seq::<EventModel>::empty());
        while i < self.lights.len()
            invariant
                i <= self.lights.len(),
                m == old(self)@,
                self.lights == old(self).lights,
                key@ == key_of(e@.cluster, e@.attribute),
                self@ == m.applied_to(e@, i as nat),
                event_models(events@) == m.events_to(e@, i as nat),
                known == exists|k: int| 0 <= k < i && (#[trigger] m.lights[k]).0 == e.node_id,
            decreases self.lights.len() - i,
        {
            assert(m.lights[i as int] == (self.lights@[i as int].0, self.lights@[i as int].1@));
            if self.lights[i].0 == e.node_id {
                let name = self.lights[i].1.clone();
                self.update(name.as_str(), key.as_str(), e.value.clone(), SOURCE_PUSH, &mut events);
                known = true;
            }
            i += 1;
        }
        if known {
            Some(events)
        } else {
            None
        }
    }

    /// What one who begins to watch is told. A light whose state is not known
    /// is left out, so that nothing better is overwritten.
    pub fn snapshot(&self) -> (events: Vec<StateEvent>)
        ensures
            event_models(events@) == self@.snapshot(),
    {
        let ghost all = self@.lights;
        let ghost rule = |t: (u64, Seq<char>)| self@.told(t.1);
        let mut events: Vec<StateEvent> = Vec::new();
        let mut i: usize = 0;
        assert(all.take(0).filter_map(rule) =~= Seq::<EventModel>::empty());
        assert(event_models(events@) =~= Seq::<EventModel>::empty());
        while i < self.lights.len()
            invariant
                i <= self.lights.len(),
                all == self@.lights,
                rule == (|t: (u64, Seq<char>)| self@.told(t.1)),
                event_models(events@) == all.take(i as int).filter_map(rule),
            decreases self.lights.len() - i,
        {
            let ghost done = events@;
            proof {
                all.lemma_filter_map_take_succ(rule, i as int);
                assert(event_models(done) + Seq::<EventModel>::empty() =~= event_models(done));
            }
            let name = self.lights[i].1.as_str();
            if let Some((state, source)) = self.primed_state(name) {
                events.push(StateEvent { device: name.to_owned(), state, source, stale: false });
                assert(event_models(events@) =~= event_models(done) + seq![self@.told(name@)->0]);
            }
            i += 1;
        }
        assert(all.take(all.len() as int) =~= all);
        events
    }

    /// No more changes are told from now on.
    pub fn close(&mut self)
        ensures
            final(self)@ == (PushModel { open: false, ..old(self)@ }),
    {
        self.open = false;
    }

    /// Whether changes are still told.
    pub fn is_open(&self) -> (r: bool)
        ensures
            r == self@.open,
    {
        self.open
    }
}

/// The report of a line of the listener, if it holds one. White space around
/// it does not count, and an empty line holds none.
pub open spec fn line_report(line: Seq<char>) -> Option<ReportModel> {
    let body = text::trimmed(line);
    if body.len() == 0 {
        None
    } else {
        report_in(wire::document(body))
    }
}

/// What became of a line of the listener.
#[derive(Debug)]
pub enum Ingested {
    /// It was taken in; the changes to tell.
    Taken(Vec<StateEvent>),
    /// Its node stands for no light.
    Foreign(u64),
    /// It holds no report.
    Unreadable,
    /// It is empty.
    Blank,
}

/// Takes in a line of the listener. A line that holds no report changes
/// nothing, and those after it are taken in all the same.
pub fn ingest(store: &mut PushStore, line: &str) -> (r: Ingested)
    ensures
        final(store)@ == match line_report(line@) {
            Some(e) => old(store)@.applied(e),
            None => old(store)@,
        },
        match (r, line_report(line@)) {
            (Ingested::Taken(events), Some(e)) => old(store)@.knows(e.node_id) && event_models(
                events@,
            ) == old(store)@.events(e),
            (Ingested::Foreign(node), Some(e)) => node == e.node_id && !old(store)@.knows(
                e.node_id,
            ),
            (Ingested::Unreadable, None) => text::trimmed(line@).len() > 0,
            (Ingested::Blank, None) => text::trimmed(line@).len() == 0,
            _ => false,
        },
{
    let body = text::trim(line);
    if body.as_str().is_empty() {
        return Ingested::Blank;
    }
    match parse_mat_listen_event(body.as_str()) {
        Some(e) => match store.apply(&e) {
            Some(events) => Ingested::Taken(events),
            None => Ingested::Foreign(e.node_id),
        },
        None => Ingested::Unreadable,
    }
}

} // verus!
