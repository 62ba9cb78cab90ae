//! The state of a device, read from what its command printed.

use vstd::prelude::*;

use crate::json;
use crate::json::{Json, JsonView};
use crate::text;

verus! {

/// The state of a device.
#[derive(Debug, Clone, Copy, PartialEq, Eq, Structural)]
pub enum State {
    /// Fully open.
    Open,
    /// Fully closed.
    Closed,
    /// On its way open.
    Opening,
    /// On its way closed.
    Closing,
    /// Stopped on the way.
    Stopped,
    On,
    Off,
    /// What was read does not say.
    Unknown,
}

/// The state that a word stands for, whatever the case of its letters and the
/// white space around it.
pub open spec fn word_state(word: Seq<char>) -> State {
    let w = text::lowered(text::trimmed(word));
    if w == "open"@ || w == "fully_open"@ || w == "0x41"@ || w == "41"@ {
        State::Open
    } else if w == "closed"@ || w == "close"@ || w == "fully_closed"@ || w == "0x42"@ || w
        == "42"@ {
        State::Closed
    } else if w == "opening"@ || w == "0x43"@ || w == "43"@ {
        State::Opening
    } else if w == "closing"@ || w == "0x44"@ || w == "44"@ {
        State::Closing
    } else if w == "stopped"@ || w == "stopped_midway"@ || w == "0x45"@ || w == "45"@ {
        State::Stopped
    } else if w == "on"@ || w == "0x30"@ || w == "30"@ {
        State::On
    } else if w == "off"@ || w == "0x31"@ || w == "31"@ {
        State::Off
    } else {
        State::Unknown
    }
}

/// The state that an ECHONET Lite code stands for.
pub open spec fn code_state(code: i64) -> State {
    if code == 0x41 {
        State::Open
    } else if code == 0x42 {
        State::Closed
    } else if code == 0x43 {
        State::Opening
    } else if code == 0x44 {
        State::Closing
    } else if code == 0x45 {
        State::Stopped
    } else if code == 0x30 {
        State::On
    } else if code == 0x31 {
        State::Off
    } else {
        State::Unknown
    }
}

/// The member of a value object that holds the state.
pub open spec fn state_member(members: Seq<(Seq<char>, JsonView)>) -> Option<JsonView> {
    match json::member(members, "state"@) {
        Some(v) => Some(v),
        None => match json::member(members, "open_close_state"@) {
            Some(v) => Some(v),
            None => json::member(members, "power"@),
        },
    }
}

/// The state that a value stands for: a word, a code, or an object that holds
/// one of these.
pub open spec fn value_state(value: JsonView) -> State
    decreases value,
{
    match value {
        JsonView::Text(s) => word_state(s),
        JsonView::Number(n) => match n.signed() {
            Some(code) => code_state(code),
            None => State::Unknown,
        },
        JsonView::Object(members) => {
            proof {
                json::lemma_member_smaller(members, "state"@);
                json::lemma_member_smaller(members, "open_close_state"@);
                json::lemma_member_smaller(members, "power"@);
            }
            match state_member(members) {
                Some(v) => value_state(v),
                None => State::Unknown,
            }
        },
        _ => State::Unknown,
    }
}

/// The first property with the name `open_close_state`.
pub open spec fn named_property(props: Seq<JsonView>) -> Option<JsonView>
    decreases props.len(),
{
    if props.len() == 0 {
        None
    } else if props.first().text_at("name"@) == Some("open_close_state"@) {
        Some(props.first())
    } else {
        named_property(props.drop_first())
    }
}

/// The property that holds the state: the one with that name, else the first.
pub open spec fn state_property(props: Seq<JsonView>) -> Option<JsonView> {
    match named_property(props) {
        Some(p) => Some(p),
        None => if props.len() == 0 {
            None
        } else {
            Some(props.first())
        },
    }
}

/// The part of the output that holds the properties: the member `value` where
/// that holds some, else the output itself.
pub open spec fn payload(raw: JsonView) -> JsonView {
    match raw.field("value"@) {
        Some(v) => if v.field("properties"@) is Some {
            v
        } else {
            raw
        },
        None => raw,
    }
}

/// The state that the properties of an output say.
pub open spec fn properties_state(raw: JsonView) -> State {
    match payload(raw).elements_at("properties"@) {
        Some(props) => match state_property(props) {
            Some(p) => match p.field("value"@) {
                Some(v) => value_state(v),
                None => State::Unknown,
            },
            None => State::Unknown,
        },
        None => State::Unknown,
    }
}

/// The state that a truth value of a light stands for.
pub open spec fn onoff_state(value: JsonView) -> State {
    match value {
        JsonView::Bool(b) => if b {
            State::On
        } else {
            State::Off
        },
        _ => State::Unknown,
    }
}

/// The state that the member `value` of an output says.
pub open spec fn light_state(raw: JsonView) -> State {
    match raw.field("value"@) {
        Some(v) => onoff_state(v),
        None => State::Unknown,
    }
}

/// The truth value that stands for the state of a light.
pub open spec fn onoff_value(state: State) -> Option<bool> {
    match state {
        State::On => Some(true),
        State::Off => Some(false),
        _ => None,
    }
}

/// The state that a word stands for.
pub fn classify_str(s: &str) -> (state: State)
    ensures
        state == word_state(s@),
{
    let word = text::to_lower(text::trim(s).as_str());
    let w = word.as_str();
    if text::same(w, "open") || text::same(w, "fully_open") || text::same(w, "0x41")
        || text::same(w, "41") {
        State::Open
    } else if text::same(w, "closed") || text::same(w, "close") || text::same(w, "fully_closed")
        || text::same(w, "0x42") || text::same(w, "42") {
        State::Closed
    } else if text::same(w, "opening") || text::same(w, "0x43") || text::same(w, "43") {
        State::Opening
    } else if text::same(w, "closing") || text::same(w, "0x44") || text::same(w, "44") {
        State::Closing
    } else if text::same(w, "stopped") || text::same(w, "stopped_midway") || text::same(w, "0x45")
        || text::same(w, "45") {
        State::Stopped
    } else if text::same(w, "on") || text::same(w, "0x30") || text::same(w, "30") {
        State::On
    } else if text::same(w, "off") || text::same(w, "0x31") || text::same(w, "31") {
        State::Off
    } else {
        State::Unknown
    }
}

fn classify_code(code: i64) -> (state: State)
    ensures
        state == code_state(code),
{
    match code {
        0x41 => State::Open,
        0x42 => State::Closed,
        0x43 => State::Opening,
        0x44 => State::Closing,
        0x45 => State::Stopped,
        0x30 => State::On,
        0x31 => State::Off,
        _ => State::Unknown,
    }
}

/// The state that a value stands for.
pub fn classify(value: &Json) -> (state: State)
    ensures
        state == value_state(value@),
    decreases value@,
{
    broadcast use crate::json::lemma_json_view;

    match value {
        Json::Text(s) => classify_str(s.as_str()),
        Json::Number(n) => match n.as_i64() {
            Some(code) => classify_code(code),
            None => State::Unknown,
        },
        Json::Object(_) => {
            proof {
                let members = value@->Object_0;
                json::lemma_member_smaller(members, "state"@);
                json::lemma_member_smaller(members, "open_close_state"@);
                json::lemma_member_smaller(members, "power"@);
            }
            match value.get("state") {
                Some(v) => classify(v),
                None => match value.get("open_close_state") {
                    Some(v) => classify(v),
                    None => match value.get("power") {
                        Some(v) => classify(v),
                        None => State::Unknown,
                    },
                },
            }
        },
        _ => State::Unknown,
    }
}

/// The state that the properties of an output say. The properties may stand in
/// the output itself or in its member `value`.
pub fn normalize_enl_state(raw: &Json) -> (state: State)
    ensures
        state == properties_state(raw@),
{
    let mut inner: &Json = raw;
    if let Some(v) = raw.get("value") {
        if v.get("properties").is_some() {
            inner = v;
        }
    }
    let props = match inner.array_at("properties") {
        Some(props) => props,
        None => return State::Unknown,
    };
    let ghost all = json::views(props@);
    assert(all.skip(0) =~= all);
    let mut i: usize = 0;
    while i < props.len()
        invariant
            i <= props.len(),
            all == json::views(props@),
            payload(raw@).elements_at("properties"@) == Some(all),
            named_property(all) == named_property(all.skip(i as int)),
        decreases props.len() - i,
    {
        assert(all.skip(i as int).drop_first() =~= all.skip(i + 1));
        if let Some(name) = props[i].str_at("name") {
            if text::same(name, "open_close_state") {
                return match props[i].get("value") {
                    Some(v) => classify(v),
                    None => State::Unknown,
                };
            }
        }
        i += 1;
    }
    if props.len() == 0 {
        return State::Unknown;
    }
    assert(all.first() == props@[0]@);
    match props[0].get("value") {
        Some(v) => classify(v),
        None => State::Unknown,
    }
}

/// The state of a light that its output says: on or off where the member
/// `value` is a truth value.
pub fn normalize_mat_onoff(raw: &Json) -> (state: State)
    ensures
        state == light_state(raw@),
{
    match raw.get("value") {
        Some(v) => normalize_onoff_value(v),
        None => State::Unknown,
    }
}

/// The state that a truth value of a light stands for.
pub fn normalize_onoff_value(value: &Json) -> (state: State)
    ensures
        state == onoff_state(value@),
{
    match value {
        Json::Bool(b) => if *b {
            State::On
        } else {
            State::Off
        },
        _ => State::Unknown,
    }
}

/// The truth value that stands for the state of a light, `None` where none
/// does.
pub fn state_to_onoff_value(state: State) -> (r: Option<Json>)
    ensures
        json::stated(r) == match onoff_value(state) {
            Some(b) => Some(JsonView::Bool(b)),
            None => None,
        },
{
    match state {
        State::On => Some(Json::Bool(true)),
        State::Off => Some(Json::Bool(false)),
        _ => None,
    }
}

/// The node that an output speaks of.
pub fn read_node_id(raw: &Json) -> (r: Option<u64>)
    ensures
        r == raw@.unsigned_at("node_id"@),
{
    raw.u64_at("node_id")
}

/// On and off survive the way to a truth value and back, and no other state
/// has a truth value.
pub proof fn lemma_onoff_round_trip(state: State)
    ensures
        onoff_value(state) is Some <==> state == State::On || state == State::Off,
        onoff_value(state) matches Some(b) ==> onoff_state(JsonView::Bool(b)) == state,
{
}

/// A truth value survives the way to a state and back.
pub proof fn lemma_onoff_value_round_trip(b: bool)
    ensures
        onoff_value(onoff_state(JsonView::Bool(b))) == Some(b),
{
}

/// Properties inside the member `value` say the same as the same properties
/// without the wrapping.
pub proof fn lemma_wrapping_is_transparent(raw: JsonView)
    requires
        raw.field("value"@) matches Some(v) && v.field("properties"@) is Some && payload(v) == v,
    ensures
        properties_state(raw) == properties_state(raw.field("value"@)->0),
{
}

} // verus!
