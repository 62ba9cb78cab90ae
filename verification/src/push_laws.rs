//! What holds of the pushed lights whatever happens to them.

use vstd::prelude::*;

use crate::config::{Device, Kind};
use crate::json::JsonView;
use crate::listing;
use crate::push::{EventModel, PushModel, ReportModel, SlotModel, ONOFF_KEY, SOURCE_PUSH, SOURCE_READ};
use crate::state::State;

verus! {

/// Only pushed lights are known of, and of each it is known where its state
/// came from exactly where a value for on and off is known.
pub open spec fn consistent(m: PushModel) -> bool {
    forall|device: Seq<char>| #[trigger]
        m.slots.contains_key(device) ==> m.tracks(device) && (
        m.slots[device].attrs.contains_key(ONOFF_KEY@) <==> m.slots[device].onoff_source is Some)
}

/// Taking in a report changes nothing but what is known of lights.
pub proof fn lemma_applied_keeps(m: PushModel, e: ReportModel, n: nat)
    ensures
        m.applied_to(e, n) == (PushModel { slots: m.applied_to(e, n).slots, ..m }),
    decreases n,
{
    if n > 0 {
        lemma_applied_keeps(m, e, (n - 1) as nat);
    }
}

/// The same value twice is the same as once.
proof fn lemma_with_twice(s: SlotModel, key: Seq<char>, value: JsonView, source: Seq<char>)
    ensures
        s.with(key, value, source).with(key, value, source) == s.with(key, value, source),
{
    assert(s.attrs.insert(key, value).insert(key, value) =~= s.attrs.insert(key, value));
}

/// The node stands for the device among the first `n` pushed lights.
spec fn stands_among(m: PushModel, node: u64, device: Seq<char>, n: nat) -> bool {
    exists|i: int| 0 <= i < n && (#[trigger] m.lights[i]).0 == node && m.lights[i].1 == device
}

proof fn lemma_applied_slot(m: PushModel, e: ReportModel, n: nat, device: Seq<char>)
    ensures
        m.applied_to(e, n).slots.get(device) == if stands_among(m, e.node_id, device, n) {
            Some(
                m.slot(device).with(crate::push::key_of(e.cluster, e.attribute), e.value, SOURCE_PUSH@),
            )
        } else {
            m.slots.get(device)
        },
    decreases n,
{
    if n > 0 {
        lemma_applied_slot(m, e, (n - 1) as nat, device);
        lemma_with_twice(
            m.slot(device),
            crate::push::key_of(e.cluster, e.attribute),
            e.value,
            SOURCE_PUSH@,
        );
        let last = m.lights[n - 1];
        if stands_among(m, e.node_id, device, (n - 1) as nat) {
            assert(stands_among(m, e.node_id, device, n));
        }
        if last.0 == e.node_id && last.1 == device {
            assert(stands_among(m, e.node_id, device, n));
        } else if stands_among(m, e.node_id, device, n) {
            let i = choose|i: int|
                0 <= i < n && (#[trigger] m.lights[i]).0 == e.node_id && m.lights[i].1 == device;
            assert(i < n - 1);
            assert(stands_among(m, e.node_id, device, (n - 1) as nat));
        }
    }
}

/// A report reaches every light that its node stands for, and no other.
pub proof fn lemma_report_reaches(m: PushModel, e: ReportModel, device: Seq<char>)
    ensures
        m.applied(e).slots.get(device) == if m.stands_for(e.node_id, device) {
            Some(
                m.slot(device).with(crate::push::key_of(e.cluster, e.attribute), e.value, SOURCE_PUSH@),
            )
        } else {
            m.slots.get(device)
        },
{
    lemma_applied_slot(m, e, m.lights.len(), device);
    assert(stands_among(m, e.node_id, device, m.lights.len()) == m.stands_for(e.node_id, device));
}

/// While the listener lives, a report that a light is on or off is what the
/// light is answered with from then on, for every light of the node.
pub proof fn lemma_report_primes(m: PushModel, e: ReportModel, device: Seq<char>, on: bool)
    requires
        m.connected,
        m.stands_for(e.node_id, device),
        crate::push::key_of(e.cluster, e.attribute) == ONOFF_KEY@,
        e.value == JsonView::Bool(on),
    ensures
        m.applied(e).primed(device) == Some(
            (
                if on {
                    State::On
                } else {
                    State::Off
                },
                SOURCE_PUSH@,
            ),
        ),
{
    lemma_report_reaches(m, e, device);
    lemma_applied_keeps(m, e, m.lights.len());
}

/// A report changes no answer for a light that its node does not stand for.
pub proof fn lemma_report_spares_others(m: PushModel, e: ReportModel, device: Seq<char>)
    requires
        !m.stands_for(e.node_id, device),
    ensures
        m.applied(e).primed(device) == m.primed(device),
{
    lemma_report_reaches(m, e, device);
    lemma_applied_keeps(m, e, m.lights.len());
}

/// A report of any other attribute changes no answer, neither the state nor
/// where it is known from, and nothing is told of it.
pub proof fn lemma_other_attributes_are_silent(m: PushModel, e: ReportModel, device: Seq<char>)
    requires
        crate::push::key_of(e.cluster, e.attribute) != ONOFF_KEY@,
    ensures
        m.applied(e).primed(device) == m.primed(device),
        m.events(e) == Seq::<EventModel>::empty(),
{
    lemma_report_reaches(m, e, device);
    lemma_applied_keeps(m, e, m.lights.len());
    lemma_silent(m, e, m.lights.len());
}

proof fn lemma_silent(m: PushModel, e: ReportModel, n: nat)
    requires
        crate::push::key_of(e.cluster, e.attribute) != ONOFF_KEY@,
    ensures
        m.events_to(e, n) == Seq::<EventModel>::empty(),
    decreases n,
{
    if n > 0 {
        lemma_silent(m, e, (n - 1) as nat);
        let before = m.applied_to(e, (n - 1) as nat);
        let device = m.lights[n - 1].1;
        let key = crate::push::key_of(e.cluster, e.attribute);
        let slot = before.slot(device);
        assert(slot.with(key, e.value, SOURCE_PUSH@).attrs.get(ONOFF_KEY@) == slot.attrs.get(
            ONOFF_KEY@,
        ));
        assert(m.events_to(e, n) =~= Seq::<EventModel>::empty());
    }
}

/// Each change that is told of a report is a change: the state that was known
/// before the report differs from the one told, which is the one known after
/// it.
pub proof fn lemma_only_changes_are_told(m: PushModel, e: ReportModel, i: int)
    requires
        0 <= i < m.events(e).len(),
    ensures
        ({
            let told = m.events(e)[i];
            &&& m.open
            &&& m.stands_for(e.node_id, told.device)
            &&& told.source == SOURCE_PUSH@
            &&& !told.stale
            &&& m.slot(told.device).state() != Some(told.state)
            &&& m.applied(e).slot(told.device).state() == Some(told.state)
        }),
{
    lemma_told(m, e, m.lights.len(), i);
    lemma_report_reaches(m, e, m.events(e)[i].device);
    assert(m.stands_for(e.node_id, m.events(e)[i].device));
}

proof fn lemma_told(m: PushModel, e: ReportModel, n: nat, i: int)
    requires
        0 <= i < m.events_to(e, n).len(),
        n <= m.lights.len(),
    ensures
        ({
            let told = m.events_to(e, n)[i];
            let after = m.slot(told.device).with(
                crate::push::key_of(e.cluster, e.attribute),
                e.value,
                SOURCE_PUSH@,
            );
            &&& m.open
            &&& m.stands_for(e.node_id, told.device)
            &&& told.source == SOURCE_PUSH@
            &&& !told.stale
            &&& m.slot(told.device).state() != Some(told.state)
            &&& after.state() == Some(told.state)
        }),
    decreases n,
{
    if n > 0 {
        let before = m.events_to(e, (n - 1) as nat);
        let so_far = m.applied_to(e, (n - 1) as nat);
        let (node, device) = m.lights[n - 1];
        let key = crate::push::key_of(e.cluster, e.attribute);
        if i < before.len() {
            lemma_told(m, e, (n - 1) as nat, i);
            assert(m.events_to(e, n)[i] == before[i]);
        } else {
            assert(node == e.node_id);
            let news = so_far.update_event(device, key, e.value, SOURCE_PUSH@);
            assert(m.events_to(e, n) == before + news);
            assert(m.events_to(e, n)[i] == news[i - before.len()]);
            lemma_applied_keeps(m, e, (n - 1) as nat);
            lemma_applied_slot(m, e, (n - 1) as nat, device);
            lemma_with_twice(m.slot(device), key, e.value, SOURCE_PUSH@);
            assert(m.stands_for(e.node_id, device)) by {
                assert(m.lights[n - 1].0 == e.node_id);
            }
        }
    }
}

/// Being a change of that device.
pub open spec fn names_device(device: Seq<char>) -> spec_fn(EventModel) -> bool {
    |told: EventModel| told.device == device
}

/// The changes of that device among those that are told.
pub open spec fn told_of(events: Seq<EventModel>, device: Seq<char>) -> Seq<EventModel> {
    events.filter(names_device(device))
}

/// What is to be told of a device whose state was the first and is the second:
/// one change where it is known now and was another before, else none.
pub open spec fn change(
    open: bool,
    device: Seq<char>,
    before: Option<State>,
    after: Option<State>,
    source: Seq<char>,
) -> Seq<EventModel> {
    match after {
        Some(state) => if open && after != before {
            seq![EventModel { device, state, source, stale: false }]
        } else {
            Seq::empty()
        },
        None => Seq::empty(),
    }
}

/// A single change is told of its own device.
proof fn lemma_told_of_one(told: EventModel, device: Seq<char>)
    ensures
        told_of(seq![told], device) == if told.device == device {
            seq![told]
        } else {
            Seq::<EventModel>::empty()
        },
{
    let none = Seq::<EventModel>::empty();
    assert(seq![told] =~= none.push(told));
    none.lemma_filter_push(told, names_device(device));
    none.lemma_filter_len(names_device(device));
    assert(none.filter(names_device(device)) =~= none);
}

proof fn lemma_told_to(m: PushModel, e: ReportModel, n: nat, device: Seq<char>)
    requires
        n <= m.lights.len(),
    ensures
        told_of(m.events_to(e, n), device) == if stands_among(m, e.node_id, device, n) {
            change(
                m.open,
                device,
                m.slot(device).state(),
                m.slot(device).with(
                    crate::push::key_of(e.cluster, e.attribute),
                    e.value,
                    SOURCE_PUSH@,
                ).state(),
                SOURCE_PUSH@,
            )
        } else {
            Seq::<EventModel>::empty()
        },
    decreases n,
{
    let none = Seq::<EventModel>::empty();
    let pred = names_device(device);
    none.lemma_filter_len(pred);
    assert(none.filter(pred) =~= none);
    if n > 0 {
        let k = (n - 1) as nat;
        let before = m.events_to(e, k);
        let so_far = m.applied_to(e, k);
        let (node, name) = m.lights[n - 1];
        let key = crate::push::key_of(e.cluster, e.attribute);
        lemma_told_to(m, e, k, device);
        if stands_among(m, e.node_id, device, k) {
            assert(stands_among(m, e.node_id, device, n));
        }
        if stands_among(m, e.node_id, device, n) && !(node == e.node_id && name == device) {
            let i = choose|i: int|
                0 <= i < n && (#[trigger] m.lights[i]).0 == e.node_id && m.lights[i].1 == device;
            assert(i < k);
            assert(stands_among(m, e.node_id, device, k));
        }
        if node == e.node_id {
            let news = so_far.update_event(name, key, e.value, SOURCE_PUSH@);
            assert(m.events_to(e, n) == before + news);
            Seq::filter_distributes_over_add(before, news, pred);
            lemma_applied_keeps(m, e, k);
            lemma_applied_slot(m, e, k, name);
            lemma_with_twice(m.slot(name), key, e.value, SOURCE_PUSH@);
            if news.len() > 0 {
                assert(news =~= seq![news[0]]);
                lemma_told_of_one(news[0], device);
            } else {
                assert(news =~= none);
            }
            if name == device {
                assert(m.lights[n - 1].0 == e.node_id);
                assert(stands_among(m, e.node_id, device, n));
            }
            assert(told_of(before, device) + none =~= told_of(before, device));
            assert(none + told_of(news, device) =~= told_of(news, device));
        }
    }
}

/// Of each device a report tells exactly one change where its state has become
/// another known one, and nothing where it has not.
pub proof fn lemma_every_change_is_told_once(m: PushModel, e: ReportModel, device: Seq<char>)
    ensures
        told_of(m.events(e), device) == change(
            m.open,
            device,
            m.slot(device).state(),
            m.applied(e).slot(device).state(),
            SOURCE_PUSH@,
        ),
{
    lemma_told_to(m, e, m.lights.len(), device);
    lemma_report_reaches(m, e, device);
    assert(stands_among(m, e.node_id, device, m.lights.len()) == m.stands_for(e.node_id, device));
}

/// The state of an answer.
pub open spec fn answered(primed: Option<(State, Seq<char>)>) -> Option<State> {
    match primed {
        Some((state, _)) => Some(state),
        None => None,
    }
}

/// While the listener lives, a report tells exactly one change of each device
/// whose answer has become another state, and nothing of any other device.
pub proof fn lemma_changed_answers_are_told_once(
    m: PushModel,
    e: ReportModel,
    device: Seq<char>,
)
    requires
        consistent(m),
        m.connected,
    ensures
        told_of(m.events(e), device) == change(
            m.open,
            device,
            answered(m.primed(device)),
            answered(m.applied(e).primed(device)),
            SOURCE_PUSH@,
        ),
{
    lemma_every_change_is_told_once(m, e, device);
    lemma_applied_keeps(m, e, m.lights.len());
    lemma_consistent(m, Seq::empty(), e, device, State::Unknown, 0, true);
    lemma_known_is_answered(m, device);
    lemma_known_is_answered(m.applied(e), device);
}

/// A report that is repeated changes nothing and tells nothing.
pub proof fn lemma_repeated_report_is_silent(m: PushModel, e: ReportModel)
    ensures
        m.applied(e).applied(e) == m.applied(e),
        m.applied(e).events(e) == Seq::<EventModel>::empty(),
{
    let once = m.applied(e);
    let twice = once.applied(e);
    let key = crate::push::key_of(e.cluster, e.attribute);
    lemma_applied_keeps(m, e, m.lights.len());
    lemma_applied_keeps(once, e, once.lights.len());
    assert forall|d: Seq<char>| #[trigger] twice.slots.get(d) == once.slots.get(d) by {
        lemma_report_reaches(m, e, d);
        lemma_report_reaches(once, e, d);
        lemma_with_twice(m.slot(d), key, e.value, SOURCE_PUSH@);
        assert(once.stands_for(e.node_id, d) == m.stands_for(e.node_id, d)) by {
            assert(once.lights == m.lights);
        }
    }
    assert forall|d: Seq<char>| twice.slots.contains_key(d) == once.slots.contains_key(d) by {
        assert(twice.slots.get(d) == once.slots.get(d));
    }
    assert(twice.slots =~= once.slots) by {
        assert forall|d: Seq<char>| once.slots.contains_key(d) implies #[trigger] twice.slots[d]
            == once.slots[d] by {
            assert(twice.slots.get(d) == once.slots.get(d));
        }
    }
    if once.events(e).len() > 0 {
        let told = once.events(e)[0];
        let pred = names_device(told.device);
        lemma_every_change_is_told_once(once, e, told.device);
        once.events(e).lemma_filter_contains(pred, 0);
    }
    assert(once.events(e) =~= Seq::<EventModel>::empty());
}

/// A state that was read tells exactly one change where the state of the
/// device has become another known one, and nothing where it has not.
pub proof fn lemma_read_tells_its_change_once(
    m: PushModel,
    device: Seq<char>,
    state: State,
    generation: u64,
)
    ensures
        m.baseline_events(device, state, generation) == change(
            m.open,
            device,
            m.slot(device).state(),
            m.with_baseline(device, state, generation).slot(device).state(),
            SOURCE_READ@,
        ),
{
}

/// When the listener comes or goes, no light can be answered without reading
/// it, nobody is told anything at the start, and the number of the connection
/// is another one.
pub proof fn lemma_connection_forgets(m: PushModel, connected: bool, device: Seq<char>)
    ensures
        m.with_connection(connected).primed(device) is None,
        m.with_connection(connected).snapshot() == Seq::<EventModel>::empty(),
        m.with_connection(connected).generation != m.generation,
{
    let after = m.with_connection(connected);
    let rule = |t: (u64, Seq<char>)| after.told(t.1);
    assert(after.snapshot() == after.lights.filter_map(rule));
    if after.snapshot().len() > 0 {
        let told = after.snapshot()[0];
        assert(after.snapshot().contains(told));
        after.lights.lemma_filter_map_contains(rule, told);
    }
}

/// While the listener does not live, no light can be answered without reading
/// it, and nobody is told anything at the start.
pub proof fn lemma_disconnected_knows_nothing(m: PushModel, device: Seq<char>)
    requires
        !m.connected,
    ensures
        m.primed(device) is None,
        m.snapshot() == Seq::<EventModel>::empty(),
{
    let rule = |t: (u64, Seq<char>)| m.told(t.1);
    assert(m.snapshot() == m.lights.filter_map(rule));
    if m.snapshot().len() > 0 {
        let told = m.snapshot()[0];
        assert(m.snapshot().contains(told));
        m.lights.lemma_filter_map_contains(rule, told);
    }
}

/// What was read across a loss of the listener is not taken over, even where
/// the listener has come back.
pub proof fn lemma_read_across_a_loss(m: PushModel, device: Seq<char>, state: State)
    ensures
        ({
            let lost = m.with_connection(false);
            let back = lost.with_connection(true);
            &&& lost.with_baseline(device, state, m.generation) == lost
            &&& back.with_baseline(device, state, m.generation) == back
            &&& lost.baseline_events(device, state, m.generation) == Seq::<EventModel>::empty()
            &&& back.baseline_events(device, state, m.generation) == Seq::<EventModel>::empty()
        }),
{
}

/// What was read while the listener lived is what the light is answered with
/// from then on; a state other than on and off, and a device that is not
/// pushed, change nothing.
pub proof fn lemma_baseline_primes(m: PushModel, device: Seq<char>, state: State)
    requires
        m.connected,
        m.tracks(device),
    ensures
        state == State::On || state == State::Off ==> m.with_baseline(
            device,
            state,
            m.generation,
        ).primed(device) == Some((state, SOURCE_READ@)),
        state != State::On && state != State::Off ==> m.with_baseline(device, state, m.generation)
            == m,
{
}

/// Once a command was sent to a device, neither it nor any light that shares
/// its node can be answered without reading it; every other answer stays.
pub proof fn lemma_command_forgets(m: PushModel, device: Seq<char>, other: Seq<char>)
    ensures
        m.siblings(device, other) ==> m.without(device).primed(other) is None,
        !m.siblings(device, other) ==> m.without(device).primed(other) == m.primed(other),
        m.without(device).primed(device) is None,
{
}

/// One who begins to watch is told of exactly the pushed lights that can be
/// answered without reading them, with the answer they would get.
pub proof fn lemma_snapshot(m: PushModel, device: Seq<char>)
    requires
        m.tracks(device),
    ensures
        m.primed(device) matches Some((state, source)) ==> m.snapshot().contains(
            EventModel { device, state, source, stale: false },
        ),
        forall|i: int|
            0 <= i < m.snapshot().len() ==> m.primed((#[trigger] m.snapshot()[i]).device) == Some(
                (m.snapshot()[i].state, m.snapshot()[i].source),
            ) && !m.snapshot()[i].stale,
{
    let rule = |t: (u64, Seq<char>)| m.told(t.1);
    assert(m.snapshot() == m.lights.filter_map(rule));
    let i = choose|i: int| 0 <= i < m.lights.len() && (#[trigger] m.lights[i]).1 == device;
    if let Some((state, source)) = m.primed(device) {
        lemma_filter_map_at(m.lights, rule, i);
    }
    assert forall|k: int| 0 <= k < m.snapshot().len() implies m.primed(
        (#[trigger] m.snapshot()[k]).device,
    ) == Some((m.snapshot()[k].state, m.snapshot()[k].source)) && !m.snapshot()[k].stale by {
        assert(m.snapshot().contains(m.snapshot()[k]));
        m.lights.lemma_filter_map_contains(rule, m.snapshot()[k]);
    }
}

/// What a rule keeps of an element is in what it keeps of the list.
proof fn lemma_filter_map_at<A, B>(list: Seq<A>, rule: spec_fn(A) -> Option<B>, i: int)
    requires
        0 <= i < list.len(),
        rule(list[i]) is Some,
    ensures
        list.filter_map(rule).contains(rule(list[i])->0),
    decreases list.len(),
{
    let kept = list.filter_map(rule);
    let b = rule(list[i])->0;
    let front = list.drop_last();
    list.lemma_filter_map_take_succ(rule, list.len() - 1);
    assert(list.take(list.len() as int) =~= list);
    assert(list.take(list.len() - 1) =~= front);
    if i == list.len() - 1 {
        assert(kept[front.filter_map(rule).len() as int] == b);
    } else {
        lemma_filter_map_at(front, rule, i);
        let k = choose|k: int|
            0 <= k < front.filter_map(rule).len() && front.filter_map(rule)[k] == b;
        assert(kept[k] == b);
    }
}

/// Once nobody watches any more nothing is told, and what is known goes on as
/// before.
pub proof fn lemma_closed_is_harmless(
    m: PushModel,
    e: ReportModel,
    device: Seq<char>,
    state: State,
    generation: u64,
)
    ensures
        ({
            let closed = PushModel { open: false, ..m };
            &&& closed.events(e) == Seq::<EventModel>::empty()
            &&& closed.baseline_events(device, state, generation) == Seq::<EventModel>::empty()
            &&& closed.applied(e) == PushModel { open: false, ..m.applied(e) }
            &&& closed.with_baseline(device, state, generation) == PushModel {
                open: false,
                ..m.with_baseline(device, state, generation)
            }
        }),
{
    lemma_closed(m, e, m.lights.len());
    let closed = PushModel { open: false, ..m };
    assert(closed.tracks(device) == m.tracks(device)) by {
        assert(closed.lights == m.lights);
    }
}

proof fn lemma_closed(m: PushModel, e: ReportModel, n: nat)
    ensures
        (PushModel { open: false, ..m }).events_to(e, n) == Seq::<EventModel>::empty(),
        (PushModel { open: false, ..m }).applied_to(e, n) == (PushModel {
            open: false,
            ..m.applied_to(e, n)
        }),
    decreases n,
{
    if n > 0 {
        lemma_closed(m, e, (n - 1) as nat);
        let closed = PushModel { open: false, ..m };
        lemma_applied_keeps(closed, e, (n - 1) as nat);
        assert(closed.events_to(e, n) =~= Seq::<EventModel>::empty());
    }
}

/// At the start what is known is consistent, and nothing that happens makes it
/// inconsistent.
pub proof fn lemma_consistent(
    m: PushModel,
    devices: Seq<Device>,
    e: ReportModel,
    device: Seq<char>,
    state: State,
    generation: u64,
    connected: bool,
)
    requires
        consistent(m),
    ensures
        consistent(PushModel::fresh(devices)),
        consistent(m.with_connection(connected)),
        consistent(m.with_baseline(device, state, generation)),
        consistent(m.applied(e)),
        consistent(m.without(device)),
        consistent(PushModel { open: false, ..m }),
{
    let read = m.with_baseline(device, state, generation);
    assert forall|d: Seq<char>| #[trigger] read.slots.contains_key(d) implies read.tracks(d) && (
    read.slots[d].attrs.contains_key(ONOFF_KEY@) <==> read.slots[d].onoff_source is Some) by {
        assert(read.lights == m.lights);
        assert(read.tracks(d) == m.tracks(d));
        if d != device {
            assert(m.slots.contains_key(d));
        } else if m.slots.contains_key(d) {
            assert(m.tracks(d));
        }
    }
    let after = m.applied(e);
    lemma_applied_keeps(m, e, m.lights.len());
    assert forall|d: Seq<char>| #[trigger] after.slots.contains_key(d) implies after.tracks(d) && (
    after.slots[d].attrs.contains_key(ONOFF_KEY@) <==> after.slots[d].onoff_source is Some) by {
        assert(after.lights == m.lights);
        assert(after.tracks(d) == m.tracks(d));
        lemma_report_reaches(m, e, d);
        if m.stands_for(e.node_id, d) {
            let i = choose|i: int|
                0 <= i < m.lights.len() && (#[trigger] m.lights[i]).0 == e.node_id
                    && m.lights[i].1 == d;
            assert(m.lights[i].1 == d);
        }
        if m.slots.contains_key(d) {
            assert(m.tracks(d));
        }
    }
    let sent = m.without(device);
    assert forall|d: Seq<char>| #[trigger] sent.slots.contains_key(d) implies sent.tracks(d) && (
    sent.slots[d].attrs.contains_key(ONOFF_KEY@) <==> sent.slots[d].onoff_source is Some) by {
        assert(m.slots.contains_key(d));
        assert(sent.lights == m.lights);
        assert(sent.tracks(d) == m.tracks(d));
    }
    let closed = PushModel { open: false, ..m };
    assert forall|d: Seq<char>| #[trigger] closed.slots.contains_key(d) implies closed.tracks(d)
        && (closed.slots[d].attrs.contains_key(ONOFF_KEY@)
        <==> closed.slots[d].onoff_source is Some) by {
        assert(m.slots.contains_key(d));
        assert(closed.lights == m.lights);
        assert(closed.tracks(d) == m.tracks(d));
    }
}

/// Where what is known is consistent and the listener lives, a light whose
/// state is known can be answered without reading it.
pub proof fn lemma_known_is_answered(m: PushModel, device: Seq<char>)
    requires
        consistent(m),
        m.connected,
    ensures
        m.primed(device) is Some <==> m.slot(device).state() is Some,
{
    if m.slots.contains_key(device) {
        assert(m.tracks(device));
    }
}

/// The attribute for on and off is the one that the listener names so.
pub proof fn lemma_onoff_key()
    ensures
        crate::push::key_of("onoff"@, "on-off"@) == ONOFF_KEY@,
{
    reveal_strlit("onoff");
    reveal_strlit("on-off");
    reveal_strlit("/");
    reveal_strlit("onoff/on-off");
    assert(crate::push::key_of("onoff"@, "on-off"@) =~= ONOFF_KEY@);
}

/// The words for where a value came from, and the attribute for on and off.
pub proof fn lemma_push_words()
    ensures
        SOURCE_PUSH@ == "push"@,
        SOURCE_READ@ == "read"@,
        ONOFF_KEY@ == "onoff/on-off"@,
{
}

/// At the start the pushed lights are the lights with a node, in the order of
/// the configuration, each with its own node; the listener does not live and
/// nothing is known.
pub proof fn lemma_pushed_lights(devices: Seq<Device>) -> (places: Seq<int>)
    ensures
        ({
            let m = PushModel::fresh(devices);
            &&& listing::are_places(
                places,
                devices.len(),
                |i: int| devices[i].kind == Kind::Light && devices[i].node_id is Some,
            )
            &&& m.lights.len() == places.len()
            &&& forall|k: int|
                0 <= k < m.lights.len() ==> (#[trigger] m.lights[k]).1
                    == devices[places[k]].name@ && devices[places[k]].node_id == Some(
                    m.lights[k].0,
                )
            &&& !m.connected && m.open && m.generation == 0
            &&& m.slots == Map::<Seq<char>, SlotModel>::empty()
        }),
{
    let m = PushModel::fresh(devices);
    let rule = |d: Device| crate::push::light_of(d);
    let places = listing::lemma_places(devices, rule);
    let kept = |i: int| rule(devices[i]) is Some;
    let wanted = |i: int| devices[i].kind == Kind::Light && devices[i].node_id is Some;
    assert forall|i: int| #[trigger] kept(i) == wanted(i) by {}
    assert forall|i: int| 0 <= i < devices.len() && #[trigger] wanted(i) implies places.contains(
        i,
    ) by {
        assert(kept(i));
    }
    assert forall|k: int| 0 <= k < places.len() implies wanted(#[trigger] places[k]) by {
        assert(kept(places[k]));
    }
    assert forall|k: int| 0 <= k < m.lights.len() implies (#[trigger] m.lights[k]).1
        == devices[places[k]].name@ && devices[places[k]].node_id == Some(m.lights[k].0) by {
        assert(rule(devices[places[k]]) == Some(m.lights[k]));
    }
    places
}

/// A device is pushed, or a node stands for it, exactly where one of the
/// pushed lights says so.
pub proof fn lemma_who_is_pushed(m: PushModel, node: u64, device: Seq<char>, other: Seq<char>)
    ensures
        m.tracks(device) <==> exists|i: int|
            0 <= i < m.lights.len() && (#[trigger] m.lights[i]).1 == device,
        m.knows(node) <==> exists|i: int|
            0 <= i < m.lights.len() && (#[trigger] m.lights[i]).0 == node,
        m.stands_for(node, device) <==> exists|i: int|
            0 <= i < m.lights.len() && #[trigger] m.lights[i] == (node, device),
        m.siblings(device, other) <==> device == other || exists|i: int, j: int|
            0 <= i < m.lights.len() && 0 <= j < m.lights.len() && (#[trigger] m.lights[i]).1
                == device && (#[trigger] m.lights[j]).1 == other && m.lights[i].0
                == m.lights[j].0,
{
    if m.stands_for(node, device) {
        let i = choose|i: int|
            0 <= i < m.lights.len() && (#[trigger] m.lights[i]).0 == node && m.lights[i].1
                == device;
        assert(m.lights[i] == (node, device));
    }
    if m.siblings(device, other) && device != other {
        let j = choose|j: int|
            0 <= j < m.lights.len() && (#[trigger] m.lights[j]).1 == other && m.stands_for(
                m.lights[j].0,
                device,
            );
        let i = choose|i: int|
            0 <= i < m.lights.len() && (#[trigger] m.lights[i]).0 == m.lights[j].0
                && m.lights[i].1 == device;
        assert(m.lights[i].1 == device && m.lights[j].1 == other);
    }
    if exists|i: int, j: int|
        0 <= i < m.lights.len() && 0 <= j < m.lights.len() && (#[trigger] m.lights[i]).1 == device
            && (#[trigger] m.lights[j]).1 == other && m.lights[i].0 == m.lights[j].0 {
        let (i, j) = choose|i: int, j: int|
            0 <= i < m.lights.len() && 0 <= j < m.lights.len() && (#[trigger] m.lights[i]).1
                == device && (#[trigger] m.lights[j]).1 == other && m.lights[i].0
                == m.lights[j].0;
        assert(m.lights[i].0 == m.lights[j].0);
        assert(m.stands_for(m.lights[j].0, device));
    }
}

/// A document is a report exactly where it has a node that is a number, a
/// cluster and an attribute that are strings, and a value; the report says
/// these.
pub proof fn lemma_report_members(raw: JsonView, e: ReportModel)
    ensures
        crate::push::report(raw) == Some(e) <==> {
            &&& raw.unsigned_at("node_id"@) == Some(e.node_id)
            &&& raw.field("cluster"@) == Some(JsonView::Text(e.cluster))
            &&& raw.field("attribute"@) == Some(JsonView::Text(e.attribute))
            &&& raw.field("value"@) == Some(e.value)
        },
        crate::push::report_in(None) is None,
        crate::push::report_in(Some(raw)) == crate::push::report(raw),
{
}

/// A line is the report in the document it holds between its white space; a
/// blank line holds none.
pub proof fn lemma_line_reports(line: Seq<char>)
    ensures
        ({
            let body = crate::text::trimmed(line);
            &&& body.len() == 0 ==> crate::push::line_report(line) is None
            &&& body.len() > 0 && crate::wire::document(body) is None ==> crate::push::line_report(
                line,
            ) is None
            &&& body.len() > 0 ==> (crate::wire::document(body) matches Some(raw)
                ==> crate::push::line_report(line) == crate::push::report(raw))
        }),
{
}

/// The name of an attribute is that of its cluster, a stroke and its own.
pub proof fn lemma_attribute_name(cluster: Seq<char>, attribute: Seq<char>)
    ensures
        crate::push::key_of(cluster, attribute) == cluster.push('/') + attribute,
{
    reveal_strlit("/");
    assert(crate::push::key_of(cluster, attribute) =~= cluster.push('/') + attribute);
}

/// What is known of a light after an attribute got a value: that value under
/// that name, everything else as before, and where on and off is known from
/// exactly where it is that attribute.
pub proof fn lemma_value_is_kept(
    s: SlotModel,
    key: Seq<char>,
    other: Seq<char>,
    value: JsonView,
    source: Seq<char>,
)
    ensures
        ({
            let after = s.with(key, value, source);
            &&& after.attrs.contains_key(key) && after.attrs[key] == value
            &&& other != key ==> after.attrs.contains_key(other) == s.attrs.contains_key(other)
            &&& other != key && s.attrs.contains_key(other) ==> after.attrs[other]
                == s.attrs[other]
            &&& key == "onoff/on-off"@ ==> after.onoff_source == Some(source)
            &&& key != "onoff/on-off"@ ==> after.onoff_source == s.onoff_source
        }),
{
}

/// A light is known to be on or off exactly where the attribute for it has the
/// truth value for that.
pub proof fn lemma_known_state(s: SlotModel)
    ensures
        s.state() == Some(State::On) <==> s.attrs.contains_key("onoff/on-off"@)
            && s.attrs["onoff/on-off"@] == JsonView::Bool(true),
        s.state() == Some(State::Off) <==> s.attrs.contains_key("onoff/on-off"@)
            && s.attrs["onoff/on-off"@] == JsonView::Bool(false),
        s.state() matches Some(x) ==> x == State::On || x == State::Off,
        SlotModel::blank().state() is None && SlotModel::blank().onoff_source is None,
        SlotModel::blank().attrs == Map::<Seq<char>, JsonView>::empty(),
{
}

/// A light can be answered without reading it exactly where the listener
/// lives, its state is known, and where that is known from; the answer is
/// these two.
pub proof fn lemma_primed_meaning(m: PushModel, device: Seq<char>, state: State, source: Seq<char>)
    ensures
        m.primed(device) == Some((state, source)) <==> m.connected && m.slots.contains_key(device)
            && m.slots[device].state() == Some(state) && m.slots[device].onoff_source == Some(
            source,
        ),
        m.slots.contains_key(device) ==> m.slot(device) == m.slots[device],
        !m.slots.contains_key(device) ==> m.slot(device) == SlotModel::blank(),
{
}

/// A report of on and off with anything but a truth value leaves the light
/// unanswered until it is read.
pub proof fn lemma_senseless_report_unprimes(m: PushModel, e: ReportModel, device: Seq<char>)
    requires
        m.stands_for(e.node_id, device),
        crate::push::key_of(e.cluster, e.attribute) == ONOFF_KEY@,
        !(e.value is Bool),
    ensures
        m.applied(e).primed(device) is None,
{
    lemma_report_reaches(m, e, device);
    lemma_applied_keeps(m, e, m.lights.len());
}

/// When the listener comes or goes, the lights stay, what was known of them is
/// dropped, and the number of the connection goes up by one, from the largest
/// to zero.
pub proof fn lemma_connection_changes(m: PushModel, connected: bool)
    ensures
        ({
            let after = m.with_connection(connected);
            &&& after.connected == connected
            &&& after.lights == m.lights
            &&& after.open == m.open
            &&& after.slots == Map::<Seq<char>, SlotModel>::empty()
            &&& m.generation < u64::MAX ==> after.generation == m.generation + 1
            &&& m.generation == u64::MAX ==> after.generation == 0
        }),
{
}

/// What was read is taken over exactly where the device is pushed, it is on or
/// off, the listener lives, and its number is the one from before the read;
/// then the device has the truth value for it, as read, and nothing else
/// changes.
pub proof fn lemma_read_is_taken_over(
    m: PushModel,
    device: Seq<char>,
    other: Seq<char>,
    state: State,
    generation: u64,
)
    ensures
        ({
            let after = m.with_baseline(device, state, generation);
            let taken = m.tracks(device) && (state == State::On || state == State::Off)
                && m.connected && m.generation == generation;
            &&& !taken ==> after == m
            &&& taken ==> after.slots.contains_key(device) && after.slots[device] == m.slot(
                device,
            ).with("onoff/on-off"@, JsonView::Bool(state == State::On), "read"@)
            &&& other != device ==> after.slots.contains_key(other) == m.slots.contains_key(other)
            &&& other != device && m.slots.contains_key(other) ==> after.slots[other]
                == m.slots[other]
            &&& after.lights == m.lights && after.connected == m.connected && after.open == m.open
                && after.generation == m.generation
        }),
{
}

/// A command to a device forgets it and the lights that share its node, and
/// nothing else.
pub proof fn lemma_what_a_command_forgets(m: PushModel, device: Seq<char>, other: Seq<char>)
    ensures
        ({
            let after = m.without(device);
            &&& after.slots.contains_key(other) <==> m.slots.contains_key(other) && !m.siblings(
                device,
                other,
            )
            &&& after.slots.contains_key(other) ==> after.slots[other] == m.slots[other]
            &&& after.lights == m.lights && after.connected == m.connected && after.open == m.open
                && after.generation == m.generation
        }),
{
}

/// One who begins to watch is told, in the order of the pushed lights, of each
/// that can be answered without reading it, and that answer.
pub proof fn lemma_snapshot_in_order(m: PushModel) -> (places: Seq<int>)
    ensures
        listing::are_places(
            places,
            m.lights.len(),
            |i: int| m.primed(m.lights[i].1) is Some,
        ),
        m.snapshot().len() == places.len(),
        forall|k: int|
            0 <= k < m.snapshot().len() ==> {
                let told = #[trigger] m.snapshot()[k];
                &&& told.device == m.lights[places[k]].1
                &&& m.primed(told.device) == Some((told.state, told.source))
                &&& !told.stale
            },
{
    let rule = |t: (u64, Seq<char>)| m.told(t.1);
    let places = listing::lemma_places(m.lights, rule);
    let kept = |i: int| rule(m.lights[i]) is Some;
    let wanted = |i: int| m.primed(m.lights[i].1) is Some;
    assert(m.snapshot() == m.lights.filter_map(rule));
    assert forall|i: int| #[trigger] kept(i) == wanted(i) by {}
    assert forall|i: int| 0 <= i < m.lights.len() && #[trigger] wanted(i) implies places.contains(
        i,
    ) by {
        assert(kept(i));
    }
    assert forall|k: int| 0 <= k < places.len() implies wanted(#[trigger] places[k]) by {
        assert(kept(places[k]));
    }
    assert forall|k: int| 0 <= k < m.snapshot().len() implies {
        let told = #[trigger] m.snapshot()[k];
        &&& told.device == m.lights[places[k]].1
        &&& m.primed(told.device) == Some((told.state, told.source))
        &&& !told.stale
    } by {
        assert(rule(m.lights[places[k]]) == Some(m.snapshot()[k]));
    }
    places
}

/// The changes that a report brings are told in the order of the pushed
/// lights, each of a light that its node stands for, as pushed.
pub proof fn lemma_changes_in_order(m: PushModel, e: ReportModel) -> (places: Seq<int>)
    ensures
        listing::rising(places),
        places.len() == m.events(e).len(),
        forall|k: int|
            0 <= k < places.len() ==> 0 <= #[trigger] places[k] < m.lights.len()
                && m.lights[places[k]] == (e.node_id, m.events(e)[k].device)
                && m.events(e)[k].source == "push"@ && !m.events(e)[k].stale,
{
    lemma_changes_to(m, e, m.lights.len())
}

proof fn lemma_changes_to(m: PushModel, e: ReportModel, n: nat) -> (places: Seq<int>)
    ensures
        listing::rising(places),
        places.len() == m.events_to(e, n).len(),
        forall|k: int|
            0 <= k < places.len() ==> 0 <= #[trigger] places[k] < n && m.lights[places[k]] == (
                e.node_id,
                m.events_to(e, n)[k].device,
            ) && m.events_to(e, n)[k].source == "push"@ && !m.events_to(e, n)[k].stale,
    decreases n,
{
    if n == 0 {
        Seq::empty()
    } else {
        let before = lemma_changes_to(m, e, (n - 1) as nat);
        let told = m.events_to(e, (n - 1) as nat);
        let all = m.events_to(e, n);
        if all.len() > told.len() {
            let places = before.push(n - 1);
            assert(m.lights[n - 1] == (e.node_id, m.lights[n - 1].1));
            assert forall|k: int| 0 <= k < places.len() implies 0 <= #[trigger] places[k] < n
                && m.lights[places[k]] == (e.node_id, all[k].device) && all[k].source == "push"@
                && !all[k].stale by {
                if k < before.len() {
                    assert(places[k] == before[k]);
                    assert(all[k] == told[k]);
                }
            }
            assert forall|i: int, j: int| 0 <= i < j < places.len() implies #[trigger] places[i]
                < #[trigger] places[j] by {
                assert(places[i] == before[i]);
                if j < before.len() {
                    assert(places[j] == before[j]);
                }
            }
            places
        } else {
            assert(all =~= told);
            before
        }
    }
}

} // verus!
