//! Answering the state of devices.

use vstd::prelude::*;

use crate::config;
use crate::config::{Config, Device, Kind};
use crate::json;
use crate::json::{Json, JsonView};
use crate::push::{PushModel, PushStore, StateEvent, SOURCE_READ};
use crate::reply;
use crate::reply::Reply;
use crate::state;
use crate::state::State;
use crate::subprocess::{ExecOutcome, ExecResult};
use crate::wire;

verus! {

/// The state of a device, as it was read.
#[derive(Debug)]
pub struct StateView {
    pub state: State,
    /// How the command that read it ended.
    pub outcome: ExecOutcome,
    /// What it printed, where that is JSON.
    pub raw: Option<Json>,
}

/// What the state of a device says.
pub struct StateModel {
    pub state: State,
    pub outcome: ExecOutcome,
    pub raw: Option<JsonView>,
}

impl View for StateView {
    type V = StateModel;

    open spec fn view(&self) -> StateModel {
        StateModel { state: self.state, outcome: self.outcome, raw: json::stated(self.raw) }
    }
}

impl Clone for StateView {
    fn clone(&self) -> (r: Self)
        ensures
            r@ == self@,
    {
        StateView {
            state: self.state,
            outcome: self.outcome,
            raw: match &self.raw {
                Some(raw) => Some(raw.clone()),
                None => None,
            },
        }
    }
}

/// The state that the output of a device of that kind says.
pub open spec fn kind_state(kind: Kind, raw: JsonView) -> State {
    match kind {
        Kind::Light => state::light_state(raw),
        _ => state::properties_state(raw),
    }
}

/// The state of a device whose command ended that way and printed that
/// document, if it printed one. Only a command that succeeded says anything.
pub open spec fn state_read(
    kind: Kind,
    outcome: ExecOutcome,
    document: Option<JsonView>,
) -> StateModel {
    if outcome != ExecOutcome::Success {
        StateModel { state: State::Unknown, outcome, raw: None }
    } else {
        StateModel {
            state: match document {
                Some(raw) => kind_state(kind, raw),
                None => State::Unknown,
            },
            outcome,
            raw: document,
        }
    }
}

/// The state of a device whose command ended that way and printed that
/// document, if it printed one.
pub fn view_state(kind: Kind, outcome: ExecOutcome, document: Option<Json>) -> (r: StateView)
    ensures
        r@ == state_read(kind, outcome, json::stated(document)),
{
    if outcome != ExecOutcome::Success {
        return StateView { state: State::Unknown, outcome, raw: None };
    }
    match document {
        Some(raw) => {
            let state = match kind {
                Kind::Shutter => state::normalize_enl_state(&raw),
                Kind::Light => state::normalize_mat_onoff(&raw),
                Kind::Switch => state::normalize_enl_state(&raw),
            };
            StateView { state, outcome, raw: Some(raw) }
        },
        None => StateView { state: State::Unknown, outcome, raw: None },
    }
}

/// The state of a device, from how the command that reads it ended and what it
/// printed.
pub fn fetch_state(device: &Device, result: &ExecResult) -> (r: StateView)
    ensures
        r@ == state_read(device.kind, result.outcome, wire::document(result.stdout@)),
{
    view_state(device.kind, result.outcome, wire::parse(result.stdout.as_str()))
}

/// The node of the configuration and the one that answered, where they differ.
pub open spec fn drift(d: Device, raw: JsonView) -> Option<(u64, u64)> {
    match (d.node_id, raw.unsigned_at("node_id"@)) {
        (Some(expected), Some(actual)) => if expected != actual {
            Some((expected, actual))
        } else {
            None
        },
        _ => None,
    }
}

/// The node of the configuration and the one that answered, where they differ:
/// the device has been set up anew and its reports are not recognised.
pub fn node_id_drift(device: &Device, raw: &Json) -> (r: Option<(u64, u64)>)
    ensures
        r == drift(*device, raw@),
{
    match (device.node_id, state::read_node_id(raw)) {
        (Some(expected), Some(actual)) => if expected != actual {
            Some((expected, actual))
        } else {
            None
        },
        _ => None,
    }
}

impl StateView {
    /// Whether the state may be shared with other reads: only one that was
    /// read with success.
    pub fn cacheable(&self) -> (r: bool)
        ensures
            r == (self.outcome == ExecOutcome::Success),
    {
        self.outcome == ExecOutcome::Success
    }
}

/// The outcome of a command, with the state that was read after it.
#[derive(Debug)]
pub struct ActionView {
    pub action: ExecOutcome,
    pub state: StateView,
}

/// The outcome of a command that was only sent.
#[derive(Debug, Clone, Copy, PartialEq, Eq, Structural)]
pub struct LightActionView {
    pub action: ExecOutcome,
}

/// The answer to a command whose effect was confirmed.
pub fn run_action(action: &ExecResult, device: &Device, read: &ExecResult) -> (r: ActionView)
    ensures
        r.action == action.outcome,
        r.state@ == state_read(device.kind, read.outcome, wire::document(read.stdout@)),
{
    ActionView { action: action.outcome, state: fetch_state(device, read) }
}

/// The answer to a command that was only sent.
pub fn run_light_action(action: &ExecResult) -> (r: LightActionView)
    ensures
        r.action == action.outcome,
{
    LightActionView { action: action.outcome }
}

/// The state of a light that is pushed.
#[derive(Debug)]
pub struct LightStateView {
    pub state: State,
    /// How the command that read it ended, where one was run.
    pub outcome: Option<ExecOutcome>,
    pub raw: Option<Json>,
    /// Where the state is known from.
    pub source: &'static str,
    /// Whether the state could not be found out.
    pub stale: bool,
}

/// What the state of a light that is pushed says.
pub struct LightStateModel {
    pub state: State,
    pub outcome: Option<ExecOutcome>,
    pub raw: Option<JsonView>,
    pub source: Seq<char>,
    pub stale: bool,
}

impl View for LightStateView {
    type V = LightStateModel;

    open spec fn view(&self) -> LightStateModel {
        LightStateModel {
            state: self.state,
            outcome: self.outcome,
            raw: json::stated(self.raw),
            source: self.source@,
            stale: self.stale,
        }
    }
}

/// How a request for the state of a device is answered.
#[derive(Debug)]
pub enum StateRoute<'a> {
    /// It is refused.
    Refuse(Reply),
    /// With a state that may be shared for a short time.
    Shared(&'a Device),
    /// With a state that is read for this request.
    Fresh(&'a Device),
    /// At once, with what was pushed.
    Pushed(LightStateView),
    /// With a state that is read for this request and then known for as long
    /// as the listener lives; the number of the connection at its start.
    Primes(&'a Device, u64),
}

/// How a request for the state of a device is answered. What is pushed is
/// answered at once where it is known; a light is never answered with a state
/// that another request has read.
pub open spec fn routes_state(
    c: Config,
    store: Option<PushModel>,
    name: Seq<char>,
    route: StateRoute<'_>,
) -> bool {
    match config::find_device(c.devices@, name) {
        None => route matches StateRoute::Refuse(r) && reply::says_unknown_device(r, name),
        Some(d) => if d.kind != Kind::Light {
            route matches StateRoute::Shared(device) && *device == d
        } else {
            match store {
                Some(m) => if !m.tracks(name) {
                    route matches StateRoute::Fresh(device) && *device == d
                } else {
                    match m.primed(name) {
                        Some((state, source)) => route matches StateRoute::Pushed(v) && v@
                            == LightStateModel {
                            state,
                            outcome: None,
                            raw: None,
                            source,
                            stale: false,
                        },
                        None => route matches StateRoute::Primes(device, generation) && *device
                            == d && generation == m.generation,
                    }
                },
                None => route matches StateRoute::Fresh(device) && *device == d,
            }
        },
    }
}

/// What is known of the pushed lights, where lights are pushed.
pub open spec fn store_model(store: Option<&PushStore>) -> Option<PushModel> {
    match store {
        Some(s) => Some(s@),
        None => None,
    }
}

/// How a request for the state of a device is answered.
pub fn get_state<'a>(
    config: &'a Config,
    store: Option<&PushStore>,
    name: &str,
) -> (route: StateRoute<'a>)
    ensures
        routes_state(*config, store_model(store), name@, route),
{
    let device = match config.find(name) {
        Some(device) => device,
        None => return StateRoute::Refuse(reply::not_found(name)),
    };
    if device.kind != Kind::Light {
        return StateRoute::Shared(device);
    }
    let store = match store {
        Some(store) => store,
        None => return StateRoute::Fresh(device),
    };
    if !store.tracks(name) {
        return StateRoute::Fresh(device);
    }
    match store.primed_state(name) {
        Some((state, source)) => StateRoute::Pushed(
            LightStateView { state, outcome: None, raw: None, source, stale: false },
        ),
        None => StateRoute::Primes(device, store.generation()),
    }
}

/// The answer with the state of a pushed light that had to be read.
pub open spec fn light_read(m: StateModel) -> LightStateModel {
    LightStateModel {
        state: m.state,
        outcome: Some(m.outcome),
        raw: m.raw,
        source: SOURCE_READ@,
        stale: m.state == State::Unknown,
    }
}

/// A pushed light was read: the state is known from now on, unless the
/// listener has come or gone since the read began. Gives the answer and the
/// changes to tell.
pub fn finish_read(
    store: &mut PushStore,
    device: &Device,
    view: StateView,
    generation: u64,
) -> (r: (LightStateView, Vec<StateEvent>))
    ensures
        r.0@ == light_read(view@),
        final(store)@ == old(store)@.with_baseline(device.name@, view.state, generation),
        crate::push::event_models(r.1@) == old(store)@.baseline_events(
            device.name@,
            view.state,
            generation,
        ),
{
    let events = store.baseline(device.name.as_str(), view.state, generation);
    let answer = LightStateView {
        state: view.state,
        outcome: Some(view.outcome),
        raw: view.raw,
        source: SOURCE_READ,
        stale: view.state == State::Unknown,
    };
    (answer, events)
}

/// A command that did not succeed never gives a state.
pub proof fn lemma_failure_is_unknown(kind: Kind, outcome: ExecOutcome, document: Option<JsonView>)
    requires
        outcome != ExecOutcome::Success,
    ensures
        state_read(kind, outcome, document).state == State::Unknown,
        state_read(kind, outcome, document).raw is None,
        light_read(state_read(kind, outcome, document)).stale,
{
}

/// A light is on, off or unknown, whatever its command printed.
pub proof fn lemma_light_states(outcome: ExecOutcome, document: Option<JsonView>)
    ensures
        ({
            let s = state_read(Kind::Light, outcome, document).state;
            s == State::On || s == State::Off || s == State::Unknown
        }),
{
}

/// Once a pushed light was read as on or off while the listener lived, it is
/// answered at once with what was read.
pub proof fn lemma_read_then_answered(
    c: Config,
    m: PushModel,
    name: Seq<char>,
    read: State,
    route: StateRoute<'_>,
)
    requires
        m.connected,
        m.tracks(name),
        read == State::On || read == State::Off,
        config::find_device(c.devices@, name) matches Some(d) && d.kind == Kind::Light,
        routes_state(c, Some(m.with_baseline(name, read, m.generation)), name, route),
    ensures
        route matches StateRoute::Pushed(v) && v@ == (LightStateModel {
            state: read,
            outcome: None,
            raw: None,
            source: SOURCE_READ@,
            stale: false,
        }),
{
    let after = m.with_baseline(name, read, m.generation);
    assert(after.lights == m.lights);
    assert(after.tracks(name) == m.tracks(name));
    crate::push_laws::lemma_baseline_primes(m, name, read);
}

/// While the listener does not live, a pushed light is read for every request.
pub proof fn lemma_without_listener_lights_are_read(
    c: Config,
    m: PushModel,
    name: Seq<char>,
    route: StateRoute<'_>,
)
    requires
        !m.connected,
        m.tracks(name),
        config::find_device(c.devices@, name) matches Some(d) && d.kind == Kind::Light,
        routes_state(c, Some(m), name, route),
    ensures
        route matches StateRoute::Primes(device, generation) && device.name@ == name && generation
            == m.generation,
{
    crate::validate::lemma_find_device(c.devices@, name);
}

/// A light is never answered with a state that another request has read.
pub proof fn lemma_lights_are_not_shared(
    c: Config,
    store: Option<PushModel>,
    name: Seq<char>,
    route: StateRoute<'_>,
)
    requires
        routes_state(c, store, name, route),
    ensures
        route matches StateRoute::Shared(d) ==> d.kind != Kind::Light,
{
}

/// Once a command was sent to a pushed light, its state is read again before
/// it is answered.
pub proof fn lemma_sent_then_read(
    c: Config,
    m: PushModel,
    name: Seq<char>,
    route: StateRoute<'_>,
)
    requires
        config::find_device(c.devices@, name) matches Some(d) && d.kind == Kind::Light,
        m.tracks(name),
        routes_state(c, Some(m.without(name)), name, route),
    ensures
        route is Primes,
{
    let after = m.without(name);
    assert(after.lights == m.lights);
    assert(after.tracks(name) == m.tracks(name));
    crate::push_laws::lemma_command_forgets(m, name, name);
}

} // verus!
