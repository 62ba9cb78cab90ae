//! Operating devices: which command a request runs, or why it runs none.

use vstd::prelude::*;

use crate::config;
use crate::config::{Config, Device, Kind};
use crate::json::{Json, JsonView};
use crate::reply;
use crate::reply::Reply;
use crate::text;
use crate::wire;

verus! {

/// An operation.
#[derive(Debug, Clone, Copy, PartialEq, Eq, Structural)]
pub enum Op {
    Open,
    Close,
    Stop,
    On,
    Off,
}

/// The command line of a device for an operation, where it has one.
pub open spec fn op_line(d: Device, op: Op) -> Option<Seq<String>> {
    match op {
        Op::Open => config::line(d.open),
        Op::Close => config::line(d.close),
        Op::Stop => config::line(d.stop),
        Op::On => config::line(d.on),
        Op::Off => config::line(d.off),
    }
}

/// A copy of a command line.
fn copy_line(cmd: &[String]) -> (r: Vec<String>)
    ensures
        r@ == cmd@,
{
    let mut r: Vec<String> = Vec::new();
    let mut i: usize = 0;
    while i < cmd.len()
        invariant
            i <= cmd.len(),
            r@ == cmd@.take(i as int),
        decreases cmd.len() - i,
    {
        r.push(cmd[i].clone());
        assert(cmd@.take(i + 1) =~= cmd@.take(i as int).push(cmd@[i as int]));
        i += 1;
    }
    assert(cmd@.take(cmd@.len() as int) =~= cmd@);
    r
}

/// The command line of a device for an operation, `None` where the device does
/// not do it.
pub fn device_cmd(device: &Device, op: Op) -> (r: Option<Vec<String>>)
    ensures
        config::line(r) == op_line(*device, op),
{
    let cmd = match op {
        Op::Open => device.open_cmd(),
        Op::Close => device.close_cmd(),
        Op::Stop => device.stop_cmd(),
        Op::On => device.on_cmd(),
        Op::Off => device.off_cmd(),
    };
    match cmd {
        Some(c) => Some(copy_line(c)),
        None => None,
    }
}

/// What a request to operate a device comes to.
#[derive(Debug)]
pub enum Plan<'a> {
    /// It is refused.
    Refuse(Reply),
    /// The command is run and its outcome answered; the state is read later,
    /// by those who want to know it.
    Send { device: &'a Device, cmd: Vec<String> },
    /// The command is run, then the state is read and answered with the
    /// outcome.
    Confirm { device: &'a Device, cmd: Vec<String> },
}

/// What an operation on a device comes to. Lights are only sent the command;
/// of other devices the state is confirmed.
pub open spec fn plans_operation(c: Config, name: Seq<char>, op: Op, plan: Plan<'_>) -> bool {
    match config::find_device(c.devices@, name) {
        None => plan matches Plan::Refuse(r) && reply::says_unknown_device(r, name),
        Some(d) => match op_line(d, op) {
            None => plan matches Plan::Refuse(r) && reply::says_unsupported(r, name),
            Some(line) => if d.kind == Kind::Light {
                plan matches Plan::Send { device, cmd } && *device == d && cmd@ == line
            } else {
                plan matches Plan::Confirm { device, cmd } && *device == d && cmd@ == line
            },
        },
    }
}

/// What an operation on a device comes to.
pub fn device_op<'a>(config: &'a Config, name: &str, op: Op) -> (plan: Plan<'a>)
    ensures
        plans_operation(*config, name@, op, plan),
{
    let device = match config.find(name) {
        Some(device) => device,
        None => return Plan::Refuse(reply::not_found(name)),
    };
    match device_cmd(device, op) {
        Some(cmd) => if device.kind == Kind::Light {
            Plan::Send { device, cmd }
        } else {
            Plan::Confirm { device, cmd }
        },
        None => Plan::Refuse(reply::unsupported(name)),
    }
}

/// What a request for a preset comes to.
pub open spec fn plans_preset(
    c: Config,
    name: Seq<char>,
    preset: Seq<char>,
    plan: Plan<'_>,
) -> bool {
    match config::find_device(c.devices@, name) {
        None => plan matches Plan::Refuse(r) && reply::says_unknown_device(r, name),
        Some(d) => match d.preset_line(preset) {
            None => plan matches Plan::Refuse(r) && reply::says_unknown_preset(r, name, preset),
            Some(line) => plan matches Plan::Send { device, cmd } && *device == d && cmd@ == line,
        },
    }
}

/// What a request for a preset comes to.
pub fn preset_device<'a>(config: &'a Config, name: &str, preset: &str) -> (plan: Plan<'a>)
    ensures
        plans_preset(*config, name@, preset@, plan),
{
    let device = match config.find(name) {
        Some(device) => device,
        None => return Plan::Refuse(reply::not_found(name)),
    };
    match device.preset_cmd(preset) {
        Some(cmd) => Plan::Send { device, cmd: copy_line(cmd) },
        None => Plan::Refuse(reply::unknown_preset(name, preset)),
    }
}

/// A hexadecimal digit.
pub open spec fn hex_digit(c: char) -> bool {
    '0' <= c <= '9' || 'a' <= c <= 'f' || 'A' <= c <= 'F'
}

/// A colour is written as `#` and six hexadecimal digits.
pub open spec fn hex_color(s: Seq<char>) -> bool {
    &&& s.len() == 7
    &&& s[0] == '#'
    &&& forall|i: int| 1 <= i < 7 ==> hex_digit(#[trigger] s[i])
}

/// Whether that is a colour.
pub fn valid_hex_color(s: &str) -> (r: bool)
    ensures
        r == hex_color(s@),
{
    let chars = text::to_chars(s);
    if chars.len() != 7 || chars[0] != '#' {
        return false;
    }
    let mut i: usize = 1;
    while i < 7
        invariant
            1 <= i <= 7,
            chars@ == s@,
            chars.len() == 7,
            forall|j: int| 1 <= j < i ==> hex_digit(#[trigger] s@[j]),
        decreases 7 - i,
    {
        let c = chars[i];
        let hex = ('0' <= c && c <= '9') || ('a' <= c && c <= 'f') || ('A' <= c && c <= 'F');
        if !hex {
            assert(!hex_digit(s@[i as int]));
            return false;
        }
        i += 1;
    }
    true
}

/// A template with every placeholder replaced by a value.
pub open spec fn filled(
    template: Seq<String>,
    placeholder: Seq<char>,
    value: Seq<char>,
) -> Seq<Seq<char>> {
    Seq::new(template.len(), |i: int| text::replaced(template[i]@, placeholder, value))
}

/// A template with every placeholder replaced by a value.
pub fn fill(template: &[String], placeholder: &str, value: &str) -> (r: Vec<String>)
    requires
        placeholder@.len() > 0,
    ensures
        text::texts(r@) == filled(template@, placeholder@, value@),
{
    let mut r: Vec<String> = Vec::new();
    let mut i: usize = 0;
    while i < template.len()
        invariant
            i <= template.len(),
            placeholder@.len() > 0,
            text::texts(r@) == filled(template@, placeholder@, value@).take(i as int),
        decreases template.len() - i,
    {
        let ghost done = r@;
        let ghost all = filled(template@, placeholder@, value@);
        r.push(text::replace(template[i].as_str(), placeholder, value));
        assert(text::texts(r@) =~= text::texts(done).push(all[i as int]));
        assert(all.take(i + 1) =~= all.take(i as int).push(all[i as int]));
        i += 1;
    }
    assert(filled(template@, placeholder@, value@).take(template@.len() as int) =~= filled(
        template@,
        placeholder@,
        value@,
    ));
    r
}

/// What a request for a colour comes to. Only what is a colour is put into the
/// command.
pub open spec fn plans_color(c: Config, name: Seq<char>, color: Seq<char>, plan: Plan<'_>) -> bool {
    match config::find_device(c.devices@, name) {
        None => plan matches Plan::Refuse(r) && reply::says_unknown_device(r, name),
        Some(d) => match config::line(d.color) {
            None => plan matches Plan::Refuse(r) && reply::says_unsupported(r, name),
            Some(template) => if hex_color(color) {
                plan matches Plan::Send { device, cmd } && *device == d && text::texts(cmd@)
                    == filled(template, "{color}"@, color)
            } else {
                plan matches Plan::Refuse(r) && reply::says_invalid_color(r, color)
            },
        },
    }
}

/// What a request for a colour comes to.
pub fn color_device<'a>(config: &'a Config, name: &str, color: &str) -> (plan: Plan<'a>)
    ensures
        plans_color(*config, name@, color@, plan),
{
    let device = match config.find(name) {
        Some(device) => device,
        None => return Plan::Refuse(reply::not_found(name)),
    };
    let template = match device.color_cmd() {
        Some(template) => template,
        None => return Plan::Refuse(reply::unsupported(name)),
    };
    if !valid_hex_color(color) {
        return Plan::Refuse(reply::invalid_color(color));
    }
    proof {
        reveal_strlit("{color}");
    }
    Plan::Send { device, cmd: fill(template, "{color}", color) }
}

/// A brightness is an integer from 1 to 100.
pub open spec fn brightness_level(value: JsonView) -> Option<u64> {
    match value.unsigned() {
        Some(n) => if 1 <= n <= 100 {
            Some(n)
        } else {
            None
        },
        None => None,
    }
}

/// What a request for a brightness comes to, where `written` is the value as
/// it is written in JSON. Only what is a brightness is put into the command.
pub open spec fn plans_brightness(
    c: Config,
    name: Seq<char>,
    value: JsonView,
    written: Seq<char>,
    plan: Plan<'_>,
) -> bool {
    match config::find_device(c.devices@, name) {
        None => plan matches Plan::Refuse(r) && reply::says_unknown_device(r, name),
        Some(d) => match config::line(d.brightness) {
            None => plan matches Plan::Refuse(r) && reply::says_unsupported(r, name),
            Some(template) => match brightness_level(value) {
                Some(n) => plan matches Plan::Send { device, cmd } && *device == d && text::texts(
                    cmd@,
                ) == filled(template, "{brightness}"@, text::decimal(n as nat)),
                None => plan matches Plan::Refuse(r) && reply::says_invalid_brightness(r, written),
            },
        },
    }
}

/// What a request for a brightness comes to, where `written` is the value as
/// it is written in JSON.
pub fn plan_brightness<'a>(
    config: &'a Config,
    name: &str,
    value: &Json,
    written: &str,
) -> (plan: Plan<'a>)
    ensures
        plans_brightness(*config, name@, value@, written@, plan),
{
    let device = match config.find(name) {
        Some(device) => device,
        None => return Plan::Refuse(reply::not_found(name)),
    };
    let template = match device.brightness_cmd() {
        Some(template) => template,
        None => return Plan::Refuse(reply::unsupported(name)),
    };
    let given = match value {
        Json::Number(n) => n.as_u64(),
        _ => None,
    };
    let level = match given {
        Some(n) => if 1 <= n && n <= 100 {
            n
        } else {
            return Plan::Refuse(reply::invalid_brightness(written));
        },
        None => return Plan::Refuse(reply::invalid_brightness(written)),
    };
    proof {
        reveal_strlit("{brightness}");
    }
    let digits = text::to_decimal(level);
    Plan::Send { device, cmd: fill(template, "{brightness}", digits.as_str()) }
}

/// What a request for a brightness comes to.
pub fn brightness_device<'a>(
    config: &'a Config,
    name: &str,
    value: serde_json::Value,
) -> (plan: Plan<'a>)
    ensures
        plans_brightness(
            *config,
            name@,
            wire::tree(value),
            wire::displayed(wire::tree(value)),
            plan,
        ),
{
    let (json, written) = wire::import_displayed(value);
    plan_brightness(config, name, &json, written.as_str())
}

/// The command of a plan, where it runs one.
pub open spec fn command(plan: Plan<'_>) -> Option<Seq<String>> {
    match plan {
        Plan::Refuse(_) => None,
        Plan::Send { cmd, .. } => Some(cmd@),
        Plan::Confirm { cmd, .. } => Some(cmd@),
    }
}

/// The preset found under a name is one of the presets.
proof fn lemma_find_preset(presets: Seq<crate::config::Preset>, name: Seq<char>)
    ensures
        config::find_preset(presets, name) matches Some(p) ==> exists|i: int|
            0 <= i < presets.len() && presets[i] == p,
    decreases presets.len(),
{
    if presets.len() > 0 {
        if presets.first().name@ == name {
            assert(presets[0] == presets.first());
        } else {
            lemma_find_preset(presets.drop_first(), name);
            if let Some(p) = config::find_preset(presets.drop_first(), name) {
                let i = choose|i: int|
                    0 <= i < presets.drop_first().len() && presets.drop_first()[i] == p;
                assert(presets[i + 1] == p);
            }
        }
    }
}

/// In a configuration that keeps the rules the command of an operation has a
/// first word.
pub proof fn lemma_operation_runs(c: Config, name: Seq<char>, op: Op, plan: Plan<'_>)
    requires
        c.fault() is None,
        plans_operation(c, name, op, plan),
    ensures
        command(plan) matches Some(cmd) ==> cmd.len() > 0,
{
    crate::validate::lemma_find_device(c.devices@, name);
    if let Some(d) = config::find_device(c.devices@, name) {
        crate::validate::lemma_valid_commands(c, d);
    }
}

/// In a configuration that keeps the rules the command of a preset has a first
/// word.
pub proof fn lemma_preset_runs(c: Config, name: Seq<char>, preset: Seq<char>, plan: Plan<'_>)
    requires
        c.fault() is None,
        plans_preset(c, name, preset, plan),
    ensures
        command(plan) matches Some(cmd) ==> cmd.len() > 0,
{
    crate::validate::lemma_find_device(c.devices@, name);
    if let Some(d) = config::find_device(c.devices@, name) {
        crate::validate::lemma_valid_commands(c, d);
        lemma_find_preset(d.presets@, preset);
    }
}

/// A command that was made of a template: it has the same words but for one,
/// in which the placeholder has given way to the value.
pub open spec fn one_word_filled(
    template: Seq<String>,
    placeholder: Seq<char>,
    value: Seq<char>,
    cmd: Seq<Seq<char>>,
) -> bool {
    &&& cmd.len() == template.len()
    &&& exists|k: int, before: Seq<char>, after: Seq<char>|
        {
            &&& 0 <= k < cmd.len()
            &&& #[trigger] text::made_of(template[k]@, before, placeholder, after)
            &&& #[trigger] text::made_of(cmd[k], before, value, after)
            &&& forall|j: int|
                0 <= j < cmd.len() && j != k ==> #[trigger] cmd[j] == template[j]@
        }
}

/// The word of a template that holds the placeholder.
proof fn lemma_holder(template: Seq<String>, placeholder: Seq<char>) -> (k: int)
    requires
        crate::validate::uses(template, placeholder) == 1,
    ensures
        0 <= k < template.len(),
        text::occurrences(template[k]@, placeholder) == 1,
        forall|j: int|
            0 <= j < template.len() && j != k ==> text::occurrences(
                (#[trigger] template[j])@,
                placeholder,
            ) == 0,
    decreases template.len(),
{
    let front = template.drop_last();
    let last = template.len() - 1;
    if text::occurrences(template.last()@, placeholder) == 1 {
        lemma_nowhere(front, placeholder);
        assert forall|j: int| 0 <= j < template.len() && j != last implies text::occurrences(
            (#[trigger] template[j])@,
            placeholder,
        ) == 0 by {
            assert(front[j] == template[j]);
        }
        last
    } else {
        let k = lemma_holder(front, placeholder);
        assert(front[k] == template[k]);
        assert forall|j: int| 0 <= j < template.len() && j != k implies text::occurrences(
            (#[trigger] template[j])@,
            placeholder,
        ) == 0 by {
            if j < last {
                assert(front[j] == template[j]);
            }
        }
        k
    }
}

proof fn lemma_nowhere(words: Seq<String>, placeholder: Seq<char>)
    requires
        crate::validate::uses(words, placeholder) == 0,
    ensures
        forall|j: int|
            0 <= j < words.len() ==> text::occurrences((#[trigger] words[j])@, placeholder) == 0,
    decreases words.len(),
{
    if words.len() > 0 {
        let front = words.drop_last();
        lemma_nowhere(front, placeholder);
        assert forall|j: int| 0 <= j < words.len() implies text::occurrences(
            (#[trigger] words[j])@,
            placeholder,
        ) == 0 by {
            if j < front.len() {
                assert(front[j] == words[j]);
            }
        }
    }
}

/// Filling a template that holds its placeholder once changes one word, and in
/// it nothing but the placeholder.
pub proof fn lemma_filled_once(template: Seq<String>, placeholder: Seq<char>, value: Seq<char>)
    requires
        crate::validate::uses(template, placeholder) == 1,
    ensures
        one_word_filled(template, placeholder, value, filled(template, placeholder, value)),
{
    let cmd = filled(template, placeholder, value);
    let k = lemma_holder(template, placeholder);
    let (before, after) = text::lemma_one_replaced(template[k]@, placeholder, value);
    assert(text::made_of(template[k]@, before, placeholder, after));
    assert(text::made_of(cmd[k], before, value, after));
    assert forall|j: int| 0 <= j < cmd.len() && j != k implies #[trigger] cmd[j]
        == template[j]@ by {
        text::lemma_nothing_replaced(template[j]@, placeholder, value);
    }
}

/// In a configuration that keeps the rules the command for a colour has a
/// first word, and it is the template with the colour in the place of the one
/// placeholder.
pub proof fn lemma_color_runs(c: Config, name: Seq<char>, color: Seq<char>, plan: Plan<'_>)
    requires
        c.fault() is None,
        plans_color(c, name, color, plan),
    ensures
        command(plan) matches Some(cmd) ==> cmd.len() > 0 && (config::find_device(
            c.devices@,
            name,
        ) matches Some(d) && (d.color matches Some(template) && one_word_filled(
            template@,
            "{color}"@,
            color,
            text::texts(cmd),
        ))),
{
    crate::validate::lemma_find_device(c.devices@, name);
    if let Some(d) = config::find_device(c.devices@, name) {
        crate::validate::lemma_valid_commands(c, d);
        if let Some(cmd) = command(plan) {
            lemma_filled_once(d.color->0@, "{color}"@, color);
            assert(text::texts(cmd).len() == cmd.len());
        }
    }
}

/// In a configuration that keeps the rules the command for a brightness has a
/// first word, and it is the template with the number in the place of the one
/// placeholder.
pub proof fn lemma_brightness_runs(
    c: Config,
    name: Seq<char>,
    value: JsonView,
    written: Seq<char>,
    plan: Plan<'_>,
)
    requires
        c.fault() is None,
        plans_brightness(c, name, value, written, plan),
    ensures
        command(plan) matches Some(cmd) ==> cmd.len() > 0 && (config::find_device(
            c.devices@,
            name,
        ) matches Some(d) && (d.brightness matches Some(template) && (brightness_level(value)
            matches Some(n) && one_word_filled(
            template@,
            "{brightness}"@,
            text::decimal(n as nat),
            text::texts(cmd),
        )))),
{
    crate::validate::lemma_find_device(c.devices@, name);
    if let Some(d) = config::find_device(c.devices@, name) {
        crate::validate::lemma_valid_commands(c, d);
        if let Some(cmd) = command(plan) {
            lemma_filled_once(
                d.brightness->0@,
                "{brightness}"@,
                text::decimal(brightness_level(value)->0 as nat),
            );
            assert(text::texts(cmd).len() == cmd.len());
        }
    }
}

/// Only lights are left unconfirmed by an operation, and nothing but a colour
/// or a brightness ever reaches a template.
pub proof fn lemma_what_is_sent(
    c: Config,
    name: Seq<char>,
    op: Op,
    color: Seq<char>,
    value: JsonView,
    written: Seq<char>,
    plan: Plan<'_>,
)
    ensures
        plans_operation(c, name, op, plan) ==> (plan matches Plan::Send { device, .. }
            ==> device.kind == Kind::Light),
        plans_operation(c, name, op, plan) ==> (plan matches Plan::Confirm { device, .. }
            ==> device.kind != Kind::Light),
        plans_color(c, name, color, plan) && command(plan) is Some ==> hex_color(color),
        plans_brightness(c, name, value, written, plan) && command(plan) is Some ==> (
        value.unsigned() matches Some(n) && 1 <= n <= 100),
{
}

} // verus!
