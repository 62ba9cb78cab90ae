//! What the outputs of devices say, word by word.

use vstd::prelude::*;

use crate::config::{Config, Device, Kind};
use crate::control_laws;
use crate::json::JsonView;
use crate::push::PushModel;
use crate::state;
use crate::state::State;
use crate::status;
use crate::status::StateRoute;
use crate::subprocess::ExecOutcome;
use crate::text;
use crate::text_laws;
use crate::wire;

verus! {

/// The two characters are the same, or the first is the capital of the second.
pub open spec fn same_letter(c: char, small: char) -> bool {
    c == small || (65 <= c as u32 <= 90 && small as u32 == c as u32 + 32)
}

/// The text is that word, with letters in either case and white space around
/// it, from the place `a` on.
pub open spec fn stands_for(text: Seq<char>, word: Seq<char>, a: int) -> bool {
    &&& 0 <= a && a + word.len() <= text.len()
    &&& text_laws::blank(text.take(a))
    &&& text_laws::blank(text.skip(a + word.len()))
    &&& forall|i: int| 0 <= i < word.len() ==> same_letter(#[trigger] text[a + i], word[i])
}

/// The text is that word, with letters in either case and white space around
/// it.
pub open spec fn written(text: Seq<char>, word: Seq<char>) -> bool {
    exists|a: int| stands_for(text, word, a)
}

/// A word of small letters, digits and signs of ASCII.
pub open spec fn plain(word: Seq<char>) -> bool {
    &&& word.len() > 0
    &&& forall|i: int|
        0 <= i < word.len() ==> 33 <= (#[trigger] word[i]) as u32 <= 126 && !(65 <= word[i] as u32
            <= 90)
}

proof fn lemma_no_space(c: char, small: char)
    requires
        same_letter(c, small),
        33 <= small as u32 <= 126,
    ensures
        !text::white_space(c),
{
    text_laws::lemma_ascii_white_space(c);
}

proof fn lemma_same_letter(c: char, small: char)
    requires
        !(65 <= small as u32 <= 90),
    ensures
        same_letter(c, small) <==> text::lower(c) == small,
{
}

/// A text is read as a plain word exactly where it is that word, with letters
/// in either case and white space around it.
pub proof fn lemma_written(text: Seq<char>, word: Seq<char>)
    requires
        plain(word),
    ensures
        written(text, word) <==> text::lowered(text::trimmed(text)) == word,
{
    let t = text::trimmed(text);
    let (lo, hi) = text_laws::lemma_trimmed_meaning(text);
    if written(text, word) {
        let a = choose|a: int| stands_for(text, word, a);
        let b = a + word.len();
        assert(same_letter(text[a + 0], word[0]));
        lemma_no_space(text[a], word[0]);
        let last = word.len() - 1;
        assert(same_letter(text[a + last], word[last]));
        lemma_no_space(text[b - 1], word[last]);
        if a < lo {
            assert(text.take(lo)[a] == text[a]);
        }
        if b > hi {
            assert(text.skip(hi)[b - 1 - hi] == text[b - 1]);
        }
        assert(t.first() == text[lo] && t.last() == text[hi - 1]);
        if lo < a {
            assert(text.take(a)[lo] == text[lo]);
        }
        if b < hi {
            assert(text.skip(b)[hi - 1 - b] == text[hi - 1]);
        }
        assert forall|i: int| 0 <= i < word.len() implies text::lowered(t)[i] == word[i] by {
            assert(same_letter(text[a + i], word[i]));
            lemma_same_letter(text[a + i], word[i]);
        }
        assert(text::lowered(t) =~= word);
    }
    if text::lowered(t) == word {
        assert(t.len() == word.len());
        assert forall|i: int| 0 <= i < word.len() implies same_letter(
            #[trigger] text[lo + i],
            word[i],
        ) by {
            assert(text::lowered(t)[i] == text::lower(t[i]));
            lemma_same_letter(text[lo + i], word[i]);
        }
        assert(stands_for(text, word, lo));
    }
}

/// The words for a state.
pub open spec fn word_for(word: Seq<char>, state: State) -> bool {
    match state {
        State::Open => word == "open"@ || word == "fully_open"@ || word == "0x41"@ || word == "41"@,
        State::Closed => word == "closed"@ || word == "close"@ || word == "fully_closed"@ || word == "0x42"@ || word == "42"@,
        State::Opening => word == "opening"@ || word == "0x43"@ || word == "43"@,
        State::Closing => word == "closing"@ || word == "0x44"@ || word == "44"@,
        State::Stopped => word == "stopped"@ || word == "stopped_midway"@ || word == "0x45"@ || word == "45"@,
        State::On => word == "on"@ || word == "0x30"@ || word == "30"@,
        State::Off => word == "off"@ || word == "0x31"@ || word == "31"@,
        State::Unknown => false,
    }
}

proof fn lemma_words()
    ensures
        "open"@ == seq!['o', 'p', 'e', 'n'],
        "fully_open"@ == seq!['f', 'u', 'l', 'l', 'y', '_', 'o', 'p', 'e', 'n'],
        "0x41"@ == seq!['0', 'x', '4', '1'],
        "41"@ == seq!['4', '1'],
        "closed"@ == seq!['c', 'l', 'o', 's', 'e', 'd'],
        "close"@ == seq!['c', 'l', 'o', 's', 'e'],
        "fully_closed"@ == seq!['f', 'u', 'l', 'l', 'y', '_', 'c', 'l', 'o', 's', 'e', 'd'],
        "0x42"@ == seq!['0', 'x', '4', '2'],
        "42"@ == seq!['4', '2'],
        "opening"@ == seq!['o', 'p', 'e', 'n', 'i', 'n', 'g'],
        "0x43"@ == seq!['0', 'x', '4', '3'],
        "43"@ == seq!['4', '3'],
        "closing"@ == seq!['c', 'l', 'o', 's', 'i', 'n', 'g'],
        "0x44"@ == seq!['0', 'x', '4', '4'],
        "44"@ == seq!['4', '4'],
        "stopped"@ == seq!['s', 't', 'o', 'p', 'p', 'e', 'd'],
        "stopped_midway"@ == seq!['s', 't', 'o', 'p', 'p', 'e', 'd', '_', 'm', 'i', 'd', 'w', 'a', 'y'],
        "0x45"@ == seq!['0', 'x', '4', '5'],
        "45"@ == seq!['4', '5'],
        "on"@ == seq!['o', 'n'],
        "0x30"@ == seq!['0', 'x', '3', '0'],
        "30"@ == seq!['3', '0'],
        "off"@ == seq!['o', 'f', 'f'],
        "0x31"@ == seq!['0', 'x', '3', '1'],
        "31"@ == seq!['3', '1'],
{
    reveal_strlit("open");
    reveal_strlit("fully_open");
    reveal_strlit("0x41");
    reveal_strlit("41");
    reveal_strlit("closed");
    reveal_strlit("close");
    reveal_strlit("fully_closed");
    reveal_strlit("0x42");
    reveal_strlit("42");
    reveal_strlit("opening");
    reveal_strlit("0x43");
    reveal_strlit("43");
    reveal_strlit("closing");
    reveal_strlit("0x44");
    reveal_strlit("44");
    reveal_strlit("stopped");
    reveal_strlit("stopped_midway");
    reveal_strlit("0x45");
    reveal_strlit("45");
    reveal_strlit("on");
    reveal_strlit("0x30");
    reveal_strlit("30");
    reveal_strlit("off");
    reveal_strlit("0x31");
    reveal_strlit("31");
}

proof fn lemma_words_are_plain(word: Seq<char>, state: State)
    requires
        word_for(word, state),
    ensures
        plain(word),
        state::word_state(word) == state,
        text::lowered(text::trimmed(word)) == word,
{
    lemma_words();
    assert(plain(word));
    assert(word.first() == word[0] && word.last() == word[word.len() - 1]);
    lemma_no_space(word.first(), word.first());
    lemma_no_space(word.last(), word.last());
    text_laws::lemma_trimmed_stays(word);
    assert(text::lowered(word) =~= word);
    assert(word_for(word, state::word_state(word)));
    lemma_words_differ(word, state, state::word_state(word));
}

/// Words for different states differ.
pub proof fn lemma_words_differ(word: Seq<char>, a: State, b: State)
    requires
        word_for(word, a),
        word_for(word, b),
    ensures
        a == b,
{
    lemma_words();
    assert("open"@.len() == 4);
    assert("fully_open"@.len() == 10);
    assert("0x41"@.len() == 4);
    assert("41"@.len() == 2);
    assert("closed"@.len() == 6);
    assert("close"@.len() == 5);
    assert("fully_closed"@.len() == 12);
    assert("0x42"@.len() == 4);
    assert("42"@.len() == 2);
    assert("opening"@.len() == 7);
    assert("0x43"@.len() == 4);
    assert("43"@.len() == 2);
    assert("closing"@.len() == 7);
    assert("0x44"@.len() == 4);
    assert("44"@.len() == 2);
    assert("stopped"@.len() == 7);
    assert("stopped_midway"@.len() == 14);
    assert("0x45"@.len() == 4);
    assert("45"@.len() == 2);
    assert("on"@.len() == 2);
    assert("0x30"@.len() == 4);
    assert("30"@.len() == 2);
    assert("off"@.len() == 3);
    assert("0x31"@.len() == 4);
    assert("31"@.len() == 2);
    assert("open"@[0] == 'o');
    assert("0x41"@[0] == '0');
    assert("0x42"@[0] == '0');
    assert("0x43"@[0] == '0');
    assert("0x44"@[0] == '0');
    assert("0x45"@[0] == '0');
    assert("0x30"@[0] == '0');
    assert("0x31"@[0] == '0');
    assert("open"@[1] == 'p');
    assert("0x41"@[1] == 'x');
    assert("0x42"@[1] == 'x');
    assert("0x43"@[1] == 'x');
    assert("0x44"@[1] == 'x');
    assert("0x45"@[1] == 'x');
    assert("0x30"@[1] == 'x');
    assert("0x31"@[1] == 'x');
    assert("open"@[2] == 'e');
    assert("0x41"@[2] == '4');
    assert("0x42"@[2] == '4');
    assert("0x43"@[2] == '4');
    assert("0x44"@[2] == '4');
    assert("0x45"@[2] == '4');
    assert("0x30"@[2] == '3');
    assert("0x31"@[2] == '3');
    assert("open"@[3] == 'n');
    assert("0x41"@[3] == '1');
    assert("0x42"@[3] == '2');
    assert("0x43"@[3] == '3');
    assert("0x44"@[3] == '4');
    assert("0x45"@[3] == '5');
    assert("0x30"@[3] == '0');
    assert("0x31"@[3] == '1');
    assert("41"@[0] == '4');
    assert("42"@[0] == '4');
    assert("43"@[0] == '4');
    assert("44"@[0] == '4');
    assert("45"@[0] == '4');
    assert("on"@[0] == 'o');
    assert("30"@[0] == '3');
    assert("31"@[0] == '3');
    assert("41"@[1] == '1');
    assert("42"@[1] == '2');
    assert("43"@[1] == '3');
    assert("44"@[1] == '4');
    assert("45"@[1] == '5');
    assert("on"@[1] == 'n');
    assert("30"@[1] == '0');
    assert("31"@[1] == '1');
    assert("opening"@[0] == 'o');
    assert("closing"@[0] == 'c');
    assert("stopped"@[0] == 's');
    assert("opening"@[1] == 'p');
    assert("closing"@[1] == 'l');
    assert("stopped"@[1] == 't');
    assert("opening"@[2] == 'e');
    assert("closing"@[2] == 'o');
    assert("stopped"@[2] == 'o');
    assert("opening"@[3] == 'n');
    assert("closing"@[3] == 's');
    assert("stopped"@[3] == 'p');
    assert("opening"@[4] == 'i');
    assert("closing"@[4] == 'i');
    assert("stopped"@[4] == 'p');
    assert("opening"@[5] == 'n');
    assert("closing"@[5] == 'n');
    assert("stopped"@[5] == 'e');
    assert("opening"@[6] == 'g');
    assert("closing"@[6] == 'g');
    assert("stopped"@[6] == 'd');
}

/// A text stands for a state exactly where it is one of the words for it, with
/// letters in either case and white space around it; a text that is none of
/// the words stands for no state.
pub proof fn lemma_word_meaning(text: Seq<char>, word: Seq<char>, state: State)
    ensures
        word_for(word, state) && written(text, word) ==> state::word_state(text) == state,
        state::word_state(text) != State::Unknown ==> exists|w: Seq<char>|
            word_for(w, state::word_state(text)) && #[trigger] written(text, w),
{
    if word_for(word, state) && written(text, word) {
        lemma_words_are_plain(word, state);
        lemma_written(text, word);
    }
    let w = text::lowered(text::trimmed(text));
    if state::word_state(text) != State::Unknown {
        lemma_words_are_plain(w, state::word_state(text));
        lemma_written(text, w);
        assert(written(text, w));
    }
}

/// The word for an unknown state stands for no state.
pub proof fn lemma_unknown_word()
    ensures
        state::word_state("unknown"@) == State::Unknown,
{
    let word = "unknown"@;
    reveal_strlit("unknown");
    if state::word_state(word) != State::Unknown {
        lemma_word_meaning(word, word, State::Unknown);
        let state = state::word_state(word);
        let w = choose|w: Seq<char>| word_for(w, state) && #[trigger] written(word, w);
        lemma_words();
        let a = choose|a: int| stands_for(word, w, a);
        assert(same_letter(word[a + 0], w[0]));
        assert(word[0] == 'u');
        if a > 0 {
            assert(word.take(a)[0] == 'u');
            text_laws::lemma_ascii_white_space('u');
        }
        assert(w[0] == 'u');
    }
}

/// A code stands for the state that its own hexadecimal digits stand for.
pub proof fn lemma_code_meaning(code: i64)
    ensures
        state::code_state(code) == State::Open <==> code == 65,
        state::code_state(code) == State::Closed <==> code == 66,
        state::code_state(code) == State::Opening <==> code == 67,
        state::code_state(code) == State::Closing <==> code == 68,
        state::code_state(code) == State::Stopped <==> code == 69,
        state::code_state(code) == State::On <==> code == 48,
        state::code_state(code) == State::Off <==> code == 49,
{
}

/// A value is read by what it is: a text by its word, an integer by its code,
/// an object by its member `state`, else `open_close_state`, else `power`;
/// anything else says nothing.
pub proof fn lemma_value_meaning(v: JsonView)
    ensures
        v matches JsonView::Text(s) ==> state::value_state(v) == state::word_state(s),
        v matches JsonView::Number(n) ==> (n.signed() matches Some(code) ==> state::value_state(v)
            == state::code_state(code)),
        v matches JsonView::Number(n) ==> (n.signed() is None ==> state::value_state(v)
            == State::Unknown),
        v.field("state"@) matches Some(x) ==> state::value_state(v) == state::value_state(x),
        v.field("state"@) is None ==> (v.field("open_close_state"@) matches Some(x)
            ==> state::value_state(v) == state::value_state(x)),
        v.field("state"@) is None && v.field("open_close_state"@) is None ==> (v.field(
            "power"@,
        ) matches Some(x) ==> state::value_state(v) == state::value_state(x)),
        v is Object && v.field("state"@) is None && v.field("open_close_state"@) is None
            && v.field("power"@) is None ==> state::value_state(v) == State::Unknown,
        v is Null || v is Bool || v is Array ==> state::value_state(v) == State::Unknown,
{
}

/// The output carries these properties: in itself, or in its member `value`.
pub open spec fn carries(raw: JsonView, props: Seq<JsonView>) -> bool {
    match raw.field("value"@) {
        Some(v) => if v.field("properties"@) is Some {
            v.field("properties"@) == Some(JsonView::Array(props))
        } else {
            raw.field("properties"@) == Some(JsonView::Array(props))
        },
        None => raw.field("properties"@) == Some(JsonView::Array(props)),
    }
}

/// The property has the name `open_close_state`.
pub open spec fn is_named(p: JsonView) -> bool {
    p.field("name"@) == Some(JsonView::Text("open_close_state"@))
}

/// The property at `k` holds the state: it is the first of the name, or the
/// first of all where none has the name.
pub open spec fn holds_state(props: Seq<JsonView>, k: int) -> bool {
    &&& 0 <= k < props.len()
    &&& {
        ||| is_named(props[k]) && forall|j: int| 0 <= j < k ==> !is_named(#[trigger] props[j])
        ||| k == 0 && forall|j: int| 0 <= j < props.len() ==> !is_named(#[trigger] props[j])
    }
}

proof fn lemma_named(props: Seq<JsonView>)
    ensures
        match state::named_property(props) {
            Some(p) => exists|k: int|
                0 <= k < props.len() && #[trigger] props[k] == p && is_named(p) && forall|j: int|
                    0 <= j < k ==> !is_named(#[trigger] props[j]),
            None => forall|j: int| 0 <= j < props.len() ==> !is_named(#[trigger] props[j]),
        },
    decreases props.len(),
{
    if props.len() > 0 {
        let rest = props.drop_first();
        assert(props[0] == props.first());
        assert(is_named(props[0]) == (props[0].text_at("name"@) == Some("open_close_state"@)));
        if !is_named(props[0]) {
            lemma_named(rest);
            match state::named_property(rest) {
                Some(p) => {
                    let k = choose|k: int|
                        0 <= k < rest.len() && #[trigger] rest[k] == p && is_named(p) && forall|
                            j: int,
                        |
                            0 <= j < k ==> !is_named(#[trigger] rest[j]);
                    assert(props[k + 1] == p);
                    assert forall|j: int| 0 <= j < k + 1 implies !is_named(#[trigger] props[j]) by {
                        if j > 0 {
                            assert(rest[j - 1] == props[j]);
                        }
                    }
                },
                None => {
                    assert forall|j: int| 0 <= j < props.len() implies !is_named(
                        #[trigger] props[j],
                    ) by {
                        if j > 0 {
                            assert(rest[j - 1] == props[j]);
                        }
                    }
                },
            }
        }
    }
}

/// The state of a shutter or switch is read from the value of the property
/// that holds it. Without a value, without a property and without properties
/// it is unknown.
pub proof fn lemma_property_is_read(kind: Kind, raw: JsonView, props: Seq<JsonView>, k: int)
    requires
        kind == Kind::Shutter || kind == Kind::Switch,
    ensures
        ({
            let read = status::state_read(kind, ExecOutcome::Success, Some(raw));
            &&& carries(raw, props) && holds_state(props, k) ==> match props[k].field("value"@) {
                Some(v) => read.state == state::value_state(v),
                None => read.state == State::Unknown,
            }
            &&& carries(raw, Seq::empty()) ==> read.state == State::Unknown
            &&& (forall|p: Seq<JsonView>| !#[trigger] carries(raw, p)) ==> read.state
                == State::Unknown
            &&& read.outcome == ExecOutcome::Success
            &&& read.raw == Some(raw)
        }),
{
    lemma_named(props);
    if carries(raw, props) && holds_state(props, k) {
        assert(state::payload(raw).elements_at("properties"@) == Some(props));
        match state::named_property(props) {
            Some(p) => {
                let i = choose|i: int|
                    0 <= i < props.len() && #[trigger] props[i] == p && is_named(p) && forall|
                        j: int,
                    |
                        0 <= j < i ==> !is_named(#[trigger] props[j]);
                if i < k {
                    assert(!is_named(props[i]));
                } else if k < i {
                    assert(!is_named(props[k]));
                    assert(!is_named(props[i]));
                }
            },
            None => {
                assert(!is_named(props[k]));
            },
        }
    }
    if let Some(p) = state::payload(raw).elements_at("properties"@) {
        assert(carries(raw, p));
    }
}

/// The value is that text, or an object whose member `state` or, without one
/// and without an `open_close_state`, whose member `power` is that text.
pub open spec fn holds_text(v: JsonView, s: Seq<char>) -> bool {
    ||| v == JsonView::Text(s)
    ||| v.field("state"@) == Some(JsonView::Text(s))
    ||| v.field("state"@) is None && v.field("open_close_state"@) == Some(JsonView::Text(s))
    ||| v.field("state"@) is None && v.field("open_close_state"@) is None && v.field("power"@)
        == Some(JsonView::Text(s))
}

/// A shutter or switch whose one property holds a word is in the state that
/// the word is for, whether or not the properties are wrapped in a member
/// `value`. So a switch that prints `on` is on and one that prints `off` is
/// off, and a shutter that prints `open` is open and one that prints `closed`
/// is closed.
pub proof fn lemma_word_is_read(
    kind: Kind,
    raw: JsonView,
    property: JsonView,
    value: JsonView,
    text: Seq<char>,
    word: Seq<char>,
    state: State,
)
    requires
        kind == Kind::Shutter || kind == Kind::Switch,
        carries(raw, seq![property]),
        property.field("value"@) == Some(value),
        holds_text(value, text),
        word_for(word, state),
        written(text, word),
    ensures
        status::state_read(kind, ExecOutcome::Success, Some(raw)).state == state,
{
    let props = seq![property];
    assert(props[0] == property);
    assert(holds_state(props, 0));
    lemma_property_is_read(kind, raw, props, 0);
    lemma_value_meaning(value);
    lemma_value_meaning(JsonView::Text(text));
    lemma_word_meaning(text, word, state);
}

/// A plain word stands for itself.
pub proof fn lemma_word_as_it_is(word: Seq<char>)
    ensures
        written(word, word),
{
    assert(stands_for(word, word, 0));
}

/// A switch that prints `on` is on and one that prints `off` is off; a shutter
/// that prints `open` is open and one that prints `closed` is closed.
pub proof fn lemma_plain_words_are_read(raw: JsonView, property: JsonView, value: JsonView)
    requires
        carries(raw, seq![property]),
        property.field("value"@) == Some(value),
    ensures
        ({
            let switch = status::state_read(Kind::Switch, ExecOutcome::Success, Some(raw)).state;
            let shutter = status::state_read(Kind::Shutter, ExecOutcome::Success, Some(raw)).state;
            &&& holds_text(value, "on"@) ==> switch == State::On
            &&& holds_text(value, "off"@) ==> switch == State::Off
            &&& holds_text(value, "open"@) ==> shutter == State::Open
            &&& holds_text(value, "closed"@) ==> shutter == State::Closed
        }),
{
    lemma_word_as_it_is("on"@);
    lemma_word_as_it_is("off"@);
    lemma_word_as_it_is("open"@);
    lemma_word_as_it_is("closed"@);
    if holds_text(value, "on"@) {
        lemma_word_is_read(Kind::Switch, raw, property, value, "on"@, "on"@, State::On);
    }
    if holds_text(value, "off"@) {
        lemma_word_is_read(Kind::Switch, raw, property, value, "off"@, "off"@, State::Off);
    }
    if holds_text(value, "open"@) {
        lemma_word_is_read(Kind::Shutter, raw, property, value, "open"@, "open"@, State::Open);
    }
    if holds_text(value, "closed"@) {
        lemma_word_is_read(Kind::Shutter, raw, property, value, "closed"@, "closed"@, State::Closed);
    }
}

/// A shutter or switch whose property holds a code is in the state that the
/// code is for.
pub proof fn lemma_code_is_read(
    kind: Kind,
    raw: JsonView,
    props: Seq<JsonView>,
    k: int,
    n: crate::json::Numeral,
)
    requires
        kind == Kind::Shutter || kind == Kind::Switch,
        carries(raw, props),
        holds_state(props, k),
        props[k].field("value"@) == Some(JsonView::Number(n)),
    ensures
        ({
            let read = status::state_read(kind, ExecOutcome::Success, Some(raw)).state;
            &&& n.signed() == Some(65i64) ==> read == State::Open
            &&& n.signed() == Some(66i64) ==> read == State::Closed
            &&& n.signed() == Some(67i64) ==> read == State::Opening
            &&& n.signed() == Some(68i64) ==> read == State::Closing
            &&& n.signed() == Some(69i64) ==> read == State::Stopped
            &&& n.signed() == Some(48i64) ==> read == State::On
            &&& n.signed() == Some(49i64) ==> read == State::Off
            &&& n.signed() is None ==> read == State::Unknown
        }),
{
    lemma_property_is_read(kind, raw, props, k);
}

/// A light is on or off as the truth value in the member `value` says, and
/// unknown where there is none.
pub proof fn lemma_light_is_read(raw: JsonView)
    ensures
        ({
            let read = status::state_read(Kind::Light, ExecOutcome::Success, Some(raw));
            &&& raw.field("value"@) == Some(JsonView::Bool(true)) <==> read.state == State::On
            &&& raw.field("value"@) == Some(JsonView::Bool(false)) <==> read.state == State::Off
            &&& read.state == State::On || read.state == State::Off || read.state
                == State::Unknown
            &&& read.outcome == ExecOutcome::Success
            &&& read.raw == Some(raw)
        }),
{
}

/// Nothing is read of a command that failed or printed no document.
pub proof fn lemma_nothing_is_read(kind: Kind, outcome: ExecOutcome, document: Option<JsonView>)
    ensures
        ({
            let read = status::state_read(kind, outcome, document);
            &&& read.outcome == outcome
            &&& outcome != ExecOutcome::Success ==> read.state == State::Unknown && read.raw is None
            &&& outcome == ExecOutcome::Success ==> read.raw == document
            &&& document is None ==> read.state == State::Unknown && read.raw is None
        }),
{
}

/// Only on and off have truth values, true for on and false for off, and only
/// those are read from one.
pub proof fn lemma_truth_values(s: State, v: JsonView)
    ensures
        state::onoff_value(s) == Some(true) <==> s == State::On,
        state::onoff_value(s) == Some(false) <==> s == State::Off,
        state::onoff_state(v) == State::On <==> v == JsonView::Bool(true),
        state::onoff_state(v) == State::Off <==> v == JsonView::Bool(false),
        state::onoff_state(v) == State::On || state::onoff_state(v) == State::Off
            || state::onoff_state(v) == State::Unknown,
{
}

/// The node has drifted exactly where one is configured, another answered, and
/// then both are given, the configured one first.
pub proof fn lemma_drift(d: Device, raw: JsonView, expected: u64, actual: u64)
    ensures
        status::drift(d, raw) == Some((expected, actual)) <==> d.node_id == Some(expected)
            && raw.unsigned_at("node_id"@) == Some(actual) && expected != actual,
{
}

/// A light that was read is answered with what was read, as known from a read;
/// it is stale exactly where the state is unknown.
pub proof fn lemma_light_read(m: status::StateModel)
    ensures
        status::light_read(m).state == m.state,
        status::light_read(m).outcome == Some(m.outcome),
        status::light_read(m).raw == m.raw,
        status::light_read(m).source == "read"@,
        status::light_read(m).stale <==> m.state == State::Unknown,
{
}

/// How a request for the state of the device at `i` is answered: what is no
/// light with a shared state; a light that is not pushed with one read for the
/// request; a pushed light with what is known of it, and with a read where
/// nothing is.
pub proof fn lemma_route(
    c: Config,
    store: Option<PushModel>,
    i: int,
    name: Seq<char>,
    route: StateRoute<'_>,
)
    requires
        control_laws::goes_by(c.devices@, i, name),
        status::routes_state(c, store, name, route),
    ensures
        ({
            let d = c.devices@[i];
            &&& d.kind != Kind::Light ==> (route matches StateRoute::Shared(x) && *x == d)
            &&& d.kind == Kind::Light && store is None ==> (route matches StateRoute::Fresh(x)
                && *x == d)
            &&& d.kind == Kind::Light ==> (store matches Some(m) ==> {
                &&& !m.tracks(name) ==> (route matches StateRoute::Fresh(x) && *x == d)
                &&& m.tracks(name) ==> match m.primed(name) {
                    Some(known) => route matches StateRoute::Pushed(v) && v@.state == known.0
                        && v@.source == known.1 && v@.outcome is None && v@.raw is None
                        && !v@.stale,
                    None => route matches StateRoute::Primes(x, generation) && *x == d
                        && generation == m.generation,
                }
            })
        }),
{
    control_laws::lemma_found(c.devices@, i, name);
}

/// The state of a device that there is not is refused as that.
pub proof fn lemma_no_route(
    c: Config,
    store: Option<PushModel>,
    name: Seq<char>,
    route: StateRoute<'_>,
)
    requires
        control_laws::nobody_is(c.devices@, name),
        status::routes_state(c, store, name, route),
    ensures
        route matches StateRoute::Refuse(r) && r.status == 404 && r.body@
            == "{\"error\":\"unknown device\",\"name\":"@ + wire::literal(name) + "}"@,
{
    control_laws::lemma_found(c.devices@, 0, name);
}

} // verus!
