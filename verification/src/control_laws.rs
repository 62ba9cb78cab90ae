//! What is sent to a device, said of the requests and of the fields of the
//! configuration.

use vstd::prelude::*;

use crate::config;
use crate::config::{Config, Device, Group, Kind};
use crate::config_laws;
use crate::control;
use crate::control::{Op, Plan};
use crate::groups;
use crate::groups::GroupPlan;
use crate::json::JsonView;
use crate::text;
use crate::validate_laws;
use crate::wire;

verus! {

/// The device at `i` is the first of that name.
pub open spec fn goes_by(devices: Seq<Device>, i: int, name: Seq<char>) -> bool {
    &&& 0 <= i < devices.len()
    &&& devices[i].name@ == name
    &&& forall|j: int| 0 <= j < i ==> (#[trigger] devices[j]).name@ != name
}

/// No device has that name.
pub open spec fn nobody_is(devices: Seq<Device>, name: Seq<char>) -> bool {
    forall|j: int| 0 <= j < devices.len() ==> (#[trigger] devices[j]).name@ != name
}

/// The request is refused with that status and in those words.
pub open spec fn refused(plan: Plan<'_>, status: u16, body: Seq<char>) -> bool {
    plan matches Plan::Refuse(r) && r.status == status && r.body@ == body
}

/// The command is run on the device and its outcome answered.
pub open spec fn sends(plan: Plan<'_>, d: Device, line: Seq<String>) -> bool {
    plan matches Plan::Send { device, cmd } && *device == d && cmd@ == line
}

/// The command is run on the device and its state read.
pub open spec fn confirms(plan: Plan<'_>, d: Device, line: Seq<String>) -> bool {
    plan matches Plan::Confirm { device, cmd } && *device == d && cmd@ == line
}

/// A light is sent the command; of another device the state is confirmed.
/// Where the device is given no command, the request is refused.
pub open spec fn carried_out(plan: Plan<'_>, d: Device, field: Option<Vec<String>>) -> bool {
    match field {
        Some(cmd) => if d.kind == Kind::Light {
            sends(plan, d, cmd@)
        } else {
            confirms(plan, d, cmd@)
        },
        None => refused(
            plan,
            404,
            "{\"error\":\"unsupported operation\",\"name\":"@ + wire::literal(d.name@) + "}"@,
        ),
    }
}

/// The device found is the first of the name.
pub proof fn lemma_found(devices: Seq<Device>, i: int, name: Seq<char>)
    ensures
        goes_by(devices, i, name) ==> config::find_device(devices, name) == Some(devices[i]),
        nobody_is(devices, name) <==> config::find_device(devices, name) is None,
{
    config_laws::lemma_find_device(devices, name);
    if goes_by(devices, i, name) {
        assert(devices[i].name@ == name);
        let d = config::find_device(devices, name)->0;
        let j = choose|j: int|
            0 <= j < devices.len() && #[trigger] devices[j] == d && d.name@ == name && forall|
                k: int,
            |
                0 <= k < j ==> (#[trigger] devices[k]).name@ != name;
        if i < j {
            assert(devices[i].name@ != name);
        } else if j < i {
            assert(devices[j].name@ != name);
        }
    }
    if config::find_device(devices, name) is Some {
        let d = config::find_device(devices, name)->0;
        let j = choose|j: int| 0 <= j < devices.len() && #[trigger] devices[j] == d;
        assert(devices[j].name@ == name);
    }
}

/// Each operation runs the command that the device is given for it, word for
/// word.
pub proof fn lemma_operation_is_the_field(
    c: Config,
    i: int,
    name: Seq<char>,
    op: Op,
    plan: Plan<'_>,
)
    requires
        goes_by(c.devices@, i, name),
        control::plans_operation(c, name, op, plan),
    ensures
        op == Op::Open ==> carried_out(plan, c.devices@[i], c.devices@[i].open),
        op == Op::Close ==> carried_out(plan, c.devices@[i], c.devices@[i].close),
        op == Op::Stop ==> carried_out(plan, c.devices@[i], c.devices@[i].stop),
        op == Op::On ==> carried_out(plan, c.devices@[i], c.devices@[i].on),
        op == Op::Off ==> carried_out(plan, c.devices@[i], c.devices@[i].off),
{
    lemma_found(c.devices@, i, name);
}

/// The command of a device for an operation is the field of that operation.
pub proof fn lemma_command_is_the_field(d: Device, cmd: Vec<String>)
    ensures
        d.open == Some(cmd) ==> control::op_line(d, Op::Open) == Some(cmd@),
        d.close == Some(cmd) ==> control::op_line(d, Op::Close) == Some(cmd@),
        d.stop == Some(cmd) ==> control::op_line(d, Op::Stop) == Some(cmd@),
        d.on == Some(cmd) ==> control::op_line(d, Op::On) == Some(cmd@),
        d.off == Some(cmd) ==> control::op_line(d, Op::Off) == Some(cmd@),
        d.open is None <==> control::op_line(d, Op::Open) is None,
        d.close is None <==> control::op_line(d, Op::Close) is None,
        d.stop is None <==> control::op_line(d, Op::Stop) is None,
        d.on is None <==> control::op_line(d, Op::On) is None,
        d.off is None <==> control::op_line(d, Op::Off) is None,
{
}

/// Whatever is asked of a device that there is not is refused as that.
pub proof fn lemma_unknown_device_is_refused(
    c: Config,
    name: Seq<char>,
    op: Op,
    preset: Seq<char>,
    color: Seq<char>,
    value: JsonView,
    written: Seq<char>,
    plan: Plan<'_>,
)
    requires
        nobody_is(c.devices@, name),
        control::plans_operation(c, name, op, plan) || control::plans_preset(
            c,
            name,
            preset,
            plan,
        ) || control::plans_color(c, name, color, plan) || control::plans_brightness(
            c,
            name,
            value,
            written,
            plan,
        ),
    ensures
        refused(
            plan,
            404,
            "{\"error\":\"unknown device\",\"name\":"@ + wire::literal(name) + "}"@,
        ),
{
    lemma_found(c.devices@, 0, name);
}

/// A preset sends the command of the first preset of that name, and is refused
/// only where none has the name.
pub proof fn lemma_preset_is_its_own_command(
    c: Config,
    i: int,
    name: Seq<char>,
    k: int,
    preset: Seq<char>,
    plan: Plan<'_>,
)
    requires
        goes_by(c.devices@, i, name),
        control::plans_preset(c, name, preset, plan),
    ensures
        ({
            let d = c.devices@[i];
            let presets = d.presets@;
            &&& 0 <= k < presets.len() && presets[k].name@ == preset && (forall|j: int|
                0 <= j < k ==> (#[trigger] presets[j]).name@ != preset) ==> sends(
                plan,
                d,
                presets[k].cmd@,
            )
            &&& (forall|j: int|
                0 <= j < presets.len() ==> (#[trigger] presets[j]).name@ != preset) <==> refused(
                plan,
                404,
                "{\"error\":\"unknown preset\",\"name\":"@ + wire::literal(name)
                    + ",\"preset\":"@ + wire::literal(preset) + "}"@,
            )
        }),
{
    lemma_found(c.devices@, i, name);
    config_laws::lemma_preset_line(c.devices@[i], k, preset);
}

/// In a configuration that keeps the rules every preset of every device sends
/// its own command.
pub proof fn lemma_every_preset_can_be_sent(c: Config, i: int, k: int, plan: Plan<'_>)
    requires
        c.fault() is None,
        0 <= i < c.devices@.len(),
        0 <= k < c.devices@[i].presets@.len(),
        control::plans_preset(
            c,
            c.devices@[i].name@,
            c.devices@[i].presets@[k].name@,
            plan,
        ),
    ensures
        sends(plan, c.devices@[i], c.devices@[i].presets@[k].cmd@),
{
    let d = c.devices@[i];
    validate_laws::lemma_validation_is_complete(c);
    assert forall|j: int| 0 <= j < i implies (#[trigger] c.devices@[j]).name@ != d.name@ by {
        assert(c.devices@[i] == d);
    }
    assert(validate_laws::fits_kind(c.devices@[i]));
    assert forall|j: int| 0 <= j < k implies (#[trigger] d.presets@[j]).name@
        != d.presets@[k].name@ by {}
    lemma_preset_is_its_own_command(c, i, d.name@, k, d.presets@[k].name@, plan);
}

/// In a configuration that keeps the rules every device can be reached by its
/// name.
pub proof fn lemma_every_device_goes_by_its_name(c: Config, i: int)
    requires
        c.fault() is None,
        0 <= i < c.devices@.len(),
    ensures
        goes_by(c.devices@, i, c.devices@[i].name@),
{
    validate_laws::lemma_validation_is_complete(c);
    assert forall|j: int| 0 <= j < i implies (#[trigger] c.devices@[j]).name@
        != c.devices@[i].name@ by {}
}

/// What stands for a hexadecimal digit.
pub open spec fn hex(c: char) -> bool {
    48 <= c as u32 <= 57 || 65 <= c as u32 <= 70 || 97 <= c as u32 <= 102
}

/// A hash and six hexadecimal digits.
pub open spec fn hash_and_six(s: Seq<char>) -> bool {
    &&& s.len() == 7 && s[0] == '#'
    &&& hex(s[1]) && hex(s[2]) && hex(s[3]) && hex(s[4]) && hex(s[5]) && hex(s[6])
}

/// A colour is a hash and six hexadecimal digits, and nothing else is one.
pub proof fn lemma_color_meaning(s: Seq<char>)
    ensures
        control::hex_color(s) <==> hash_and_six(s),
{
    if s.len() == 7 {
        lemma_hex(s[1]);
        lemma_hex(s[2]);
        lemma_hex(s[3]);
        lemma_hex(s[4]);
        lemma_hex(s[5]);
        lemma_hex(s[6]);
    }
}

/// The hexadecimal digits are those of ASCII, with letters in either case.
pub proof fn lemma_hex(c: char)
    ensures
        control::hex_digit(c) <==> hex(c),
{
}

/// The words are those of the template, each with the value in every place of
/// the placeholder.
pub open spec fn made_from(
    cmd: Seq<String>,
    template: Seq<String>,
    placeholder: Seq<char>,
    value: Seq<char>,
) -> bool {
    &&& cmd.len() == template.len()
    &&& forall|k: int|
        0 <= k < cmd.len() ==> (#[trigger] cmd[k])@ == text::replaced(
            template[k]@,
            placeholder,
            value,
        )
}

proof fn lemma_made_from(
    cmd: Seq<String>,
    template: Seq<String>,
    placeholder: Seq<char>,
    value: Seq<char>,
)
    requires
        text::texts(cmd) == control::filled(template, placeholder, value),
    ensures
        made_from(cmd, template, placeholder, value),
{
    assert(text::texts(cmd).len() == cmd.len());
    assert forall|k: int| 0 <= k < cmd.len() implies (#[trigger] cmd[k])@ == text::replaced(
        template[k]@,
        placeholder,
        value,
    ) by {
        assert(text::texts(cmd)[k] == cmd[k]@);
    }
}

/// Filling a template replaces the placeholder in each word.
pub proof fn lemma_filling(
    template: Seq<String>,
    placeholder: Seq<char>,
    value: Seq<char>,
    k: int,
)
    requires
        0 <= k < template.len(),
    ensures
        control::filled(template, placeholder, value).len() == template.len(),
        control::filled(template, placeholder, value)[k] == text::replaced(
            template[k]@,
            placeholder,
            value,
        ),
{
}

/// A request for a colour sends the template of the device with the colour in
/// it; it is refused where the device has no template, and where what is asked
/// for is no colour.
pub proof fn lemma_color_is_filled_in(
    c: Config,
    i: int,
    name: Seq<char>,
    color: Seq<char>,
    plan: Plan<'_>,
)
    requires
        goes_by(c.devices@, i, name),
        control::plans_color(c, name, color, plan),
    ensures
        match c.devices@[i].color {
            None => refused(
                plan,
                404,
                "{\"error\":\"unsupported operation\",\"name\":"@ + wire::literal(name) + "}"@,
            ),
            Some(t) => if hash_and_six(color) {
                plan matches Plan::Send { device, cmd } && *device == c.devices@[i] && made_from(
                    cmd@,
                    t@,
                    "{color}"@,
                    color,
                )
            } else {
                refused(
                    plan,
                    400,
                    "{\"error\":\"invalid color\",\"color\":"@ + wire::literal(color) + "}"@,
                )
            },
        },
{
    lemma_found(c.devices@, i, name);
    lemma_color_meaning(color);
    if let Some(t) = c.devices@[i].color {
        if let Plan::Send { device, cmd } = plan {
            lemma_made_from(cmd@, t@, "{color}"@, color);
        }
    }
}

/// A request for a brightness sends the template of the device with the number
/// in it; it is refused where the device has no template, and where what is
/// asked for is no integer from 1 to 100.
pub proof fn lemma_brightness_is_filled_in(
    c: Config,
    i: int,
    name: Seq<char>,
    value: JsonView,
    written: Seq<char>,
    plan: Plan<'_>,
)
    requires
        goes_by(c.devices@, i, name),
        control::plans_brightness(c, name, value, written, plan),
    ensures
        match c.devices@[i].brightness {
            None => refused(
                plan,
                404,
                "{\"error\":\"unsupported operation\",\"name\":"@ + wire::literal(name) + "}"@,
            ),
            Some(t) => {
                &&& forall|n: u64| #[trigger]
                    value.unsigned() == Some(n) && 1 <= n <= 100 ==> (
                    plan matches Plan::Send { device, cmd } && *device == c.devices@[i]
                        && made_from(cmd@, t@, "{brightness}"@, text::decimal(n as nat)))
                &&& !(value.unsigned() matches Some(n) && 1 <= n <= 100) ==> refused(
                    plan,
                    400,
                    "{\"error\":\"invalid brightness\",\"brightness\":"@ + written + "}"@,
                )
            },
        },
{
    lemma_found(c.devices@, i, name);
    if let Some(t) = c.devices@[i].brightness {
        if let Some(n) = value.unsigned() {
            if 1 <= n <= 100 {
                if let Plan::Send { device, cmd } = plan {
                    lemma_made_from(cmd@, t@, "{brightness}"@, text::decimal(n as nat));
                }
            }
        }
    }
}

/// The group at `i` is the first of that name.
pub open spec fn group_goes_by(groups: Seq<Group>, i: int, name: Seq<char>) -> bool {
    &&& 0 <= i < groups.len()
    &&& groups[i].name@ == name
    &&& forall|j: int| 0 <= j < i ==> (#[trigger] groups[j]).name@ != name
}

/// The group found is the first of the name.
pub proof fn lemma_group_found(groups: Seq<Group>, i: int, name: Seq<char>)
    ensures
        group_goes_by(groups, i, name) ==> config::find_group(groups, name) == Some(groups[i]),
{
    config_laws::lemma_find_group(groups, name);
    if group_goes_by(groups, i, name) {
        assert(groups[i].name@ == name);
        let d = config::find_group(groups, name)->0;
        let j = choose|j: int|
            0 <= j < groups.len() && #[trigger] groups[j] == d && d.name@ == name && forall|
                k: int,
            |
                0 <= k < j ==> (#[trigger] groups[k]).name@ != name;
        if i < j {
            assert(groups[i].name@ != name);
        } else if j < i {
            assert(groups[j].name@ != name);
        }
    }
}

/// The command of a step is the field, word for word, or none where the device
/// has none.
pub open spec fn is_field(cmd: Option<Vec<String>>, field: Option<Vec<String>>) -> bool {
    match field {
        Some(f) => cmd matches Some(c) && c@ == f@,
        None => cmd is None,
    }
}

/// An operation on a group has one step for each member, in their order. The
/// step is on the device of that name and runs the command which that device
/// is given for the operation.
pub proof fn lemma_group_operates_each_member(
    c: Config,
    i: int,
    name: Seq<char>,
    op: Op,
    plan: GroupPlan<'_>,
    k: int,
    m: int,
)
    requires
        group_goes_by(c.groups@, i, name),
        groups::plans_group(c, name, op, plan),
        0 <= k < c.groups@[i].members@.len(),
        goes_by(c.devices@, m, c.groups@[i].members@[k]@),
    ensures
        plan matches GroupPlan::Steps(steps) && steps@.len() == c.groups@[i].members@.len() && {
            let d = c.devices@[m];
            &&& *steps@[k].device == d
            &&& op == Op::Open ==> is_field(steps@[k].cmd, d.open)
            &&& op == Op::Close ==> is_field(steps@[k].cmd, d.close)
            &&& op == Op::Stop ==> is_field(steps@[k].cmd, d.stop)
            &&& op == Op::On ==> is_field(steps@[k].cmd, d.on)
            &&& op == Op::Off ==> is_field(steps@[k].cmd, d.off)
        },
{
    lemma_group_found(c.groups@, i, name);
    lemma_found(c.devices@, m, c.groups@[i].members@[k]@);
    if let GroupPlan::Steps(steps) = plan {
        assert(groups::steps_on(c.devices@, c.groups@[i].members@[k]@, op, steps@[k]));
    }
}

/// A group that there is not is refused as that, and no member of it is
/// missing.
pub proof fn lemma_unknown_group_is_refused(
    c: Config,
    name: Seq<char>,
    op: Op,
    plan: GroupPlan<'_>,
)
    requires
        forall|j: int| 0 <= j < c.groups@.len() ==> (#[trigger] c.groups@[j]).name@ != name,
        groups::plans_group(c, name, op, plan),
    ensures
        plan matches GroupPlan::Refuse(r) && r.status == 404 && r.body@
            == "{\"error\":\"unknown group\",\"name\":"@ + wire::literal(name) + "}"@,
        groups::group_is_complete(c, name),
{
    config_laws::lemma_find_group(c.groups@, name);
}

/// A group is complete exactly where each of its members is the name of a
/// device.
pub proof fn lemma_complete_group(c: Config, i: int, name: Seq<char>)
    requires
        group_goes_by(c.groups@, i, name),
    ensures
        groups::group_is_complete(c, name) <==> forall|k: int|
            0 <= k < c.groups@[i].members@.len() ==> !nobody_is(
                c.devices@,
                (#[trigger] c.groups@[i].members@[k])@,
            ),
{
    lemma_group_found(c.groups@, i, name);
    let g = c.groups@[i];
    assert forall|k: int| 0 <= k < g.members@.len() implies (config::find_device(
        c.devices@,
        (#[trigger] g.members@[k])@,
    ) is None) == nobody_is(c.devices@, g.members@[k]@) by {
        lemma_found(c.devices@, 0, g.members@[k]@);
    }
}

} // verus!
