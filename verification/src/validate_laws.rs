//! The rules of a configuration, said all at once, and what a refusal means.

use vstd::prelude::*;

use crate::config;
use crate::config::{Config, Device, Graph, Group, Kind, Preset};
use crate::text;
use crate::validate;
use crate::validate::Fault;

verus! {

/// A command that is given and has a first word.
pub open spec fn ready(cmd: Option<Vec<String>>) -> bool {
    cmd matches Some(c) && c@.len() > 0
}

/// The placeholder stands once in one word of the template, and in no other.
pub open spec fn one_holder(template: Seq<String>, placeholder: Seq<char>) -> bool {
    exists|k: int|
        {
            &&& 0 <= k < template.len()
            &&& text::occurrences((#[trigger] template[k])@, placeholder) == 1
            &&& forall|j: int|
                0 <= j < template.len() && j != k ==> text::occurrences(
                    (#[trigger] template[j])@,
                    placeholder,
                ) == 0
        }
}

/// A template that may be given holds its placeholder once.
pub open spec fn fillable(template: Option<Vec<String>>, placeholder: Seq<char>) -> bool {
    template matches Some(t) ==> one_holder(t@, placeholder)
}

/// No two presets share a name, and each has a command.
pub open spec fn presets_fit(presets: Seq<Preset>) -> bool {
    &&& forall|k: int, l: int|
        0 <= k < l < presets.len() ==> (#[trigger] presets[k]).name@ != (
        #[trigger] presets[l]).name@
    &&& forall|k: int| 0 <= k < presets.len() ==> (#[trigger] presets[k]).cmd@.len() > 0
}

/// The device has the fields of its kind, and no others.
pub open spec fn fits_kind(d: Device) -> bool {
    &&& d.get_state@.len() > 0
    &&& match d.kind {
        Kind::Shutter => {
            &&& ready(d.open) && ready(d.close) && (d.stop is Some ==> ready(d.stop))
            &&& d.on is None && d.off is None && d.color is None && d.brightness is None
            &&& d.face is None && d.presets@.len() == 0 && d.members@.len() == 0
        },
        Kind::Light => {
            &&& ready(d.on) && ready(d.off)
            &&& d.open is None && d.close is None && d.stop is None && d.face is None
            &&& presets_fit(d.presets@)
            &&& fillable(d.color, "{color}"@) && fillable(d.brightness, "{brightness}"@)
        },
        Kind::Switch => {
            &&& ready(d.on) && ready(d.off)
            &&& d.open is None && d.close is None && d.stop is None
            &&& d.color is None && d.brightness is None
            &&& d.presets@.len() == 0 && d.members@.len() == 0
        },
    }
}

/// One of the devices has the name, is of the kind and has no members.
pub open spec fn plain_device(devices: Seq<Device>, name: Seq<char>, kind: Kind) -> bool {
    exists|i: int|
        0 <= i < devices.len() && (#[trigger] devices[i]).name@ == name && devices[i].kind == kind
            && devices[i].members@.len() == 0
}

/// The configuration keeps every rule.
pub open spec fn keeps_rules(c: Config) -> bool {
    let devices = c.devices@;
    let groups = c.groups@;
    let graphs = c.graphs@;
    &&& devices.len() > 0
    &&& forall|i: int, j: int|
        0 <= i < j < devices.len() ==> (#[trigger] devices[i]).name@ != (
        #[trigger] devices[j]).name@
    &&& forall|i: int| 0 <= i < devices.len() ==> fits_kind(#[trigger] devices[i])
    &&& forall|i: int, k: int|
        #![trigger devices[i].members@[k]]
        0 <= i < devices.len() && 0 <= k < devices[i].members@.len() ==> plain_device(
            devices,
            devices[i].members@[k]@,
            Kind::Light,
        )
    &&& forall|i: int, k: int, j: int, l: int|
        #![trigger devices[i].members@[k], devices[j].members@[l]]
        0 <= i < devices.len() && 0 <= k < devices[i].members@.len() && 0 <= j < devices.len() && 0
            <= l < devices[j].members@.len() && (i != j || k != l) ==> devices[i].members@[k]@
            != devices[j].members@[l]@
    &&& forall|i: int, j: int|
        0 <= i < j < groups.len() ==> (#[trigger] groups[i]).name@ != (#[trigger] groups[j]).name@
    &&& forall|i: int| 0 <= i < groups.len() ==> (#[trigger] groups[i]).members@.len() > 0
    &&& forall|i: int, k: int|
        #![trigger groups[i].members@[k]]
        0 <= i < groups.len() && 0 <= k < groups[i].members@.len() ==> plain_device(
            devices,
            groups[i].members@[k]@,
            Kind::Shutter,
        )
    &&& forall|i: int, k: int, j: int, l: int|
        #![trigger groups[i].members@[k], groups[j].members@[l]]
        0 <= i < groups.len() && 0 <= k < groups[i].members@.len() && 0 <= j < groups.len() && 0
            <= l < groups[j].members@.len() && (i != j || k != l) ==> groups[i].members@[k]@
            != groups[j].members@[l]@
    &&& forall|i: int, j: int|
        0 <= i < j < graphs.len() ==> (#[trigger] graphs[i]).name@ != (#[trigger] graphs[j]).name@
    &&& forall|i: int|
        0 <= i < graphs.len() ==> one_holder((#[trigger] graphs[i]).query@, "{period}"@)
    &&& c.health matches Some(h) ==> h.command@.len() > 0
    &&& c.push matches Some(p) ==> p.listen@.len() > 0
    &&& c.mesh matches Some(m) ==> m.command@.len() > 0
}

proof fn lemma_nowhere(words: Seq<String>, placeholder: Seq<char>)
    ensures
        validate::uses(words, placeholder) == 0 <==> forall|j: int|
            0 <= j < words.len() ==> text::occurrences((#[trigger] words[j])@, placeholder) == 0,
    decreases words.len(),
{
    if words.len() > 0 {
        let front = words.drop_last();
        lemma_nowhere(front, placeholder);
        assert(words[words.len() - 1] == words.last());
        assert forall|j: int| 0 <= j < front.len() implies front[j] == #[trigger] words[j] by {}
    }
}

/// A template uses its placeholder once exactly where it stands once in one
/// word and in no other.
pub proof fn lemma_used_once(words: Seq<String>, placeholder: Seq<char>)
    ensures
        validate::uses(words, placeholder) == 1 <==> one_holder(words, placeholder),
    decreases words.len(),
{
    if words.len() > 0 {
        let front = words.drop_last();
        let last = words.len() - 1;
        lemma_used_once(front, placeholder);
        lemma_nowhere(front, placeholder);
        assert(words[last] == words.last());
        assert forall|j: int| 0 <= j < front.len() implies front[j] == #[trigger] words[j] by {}
        if validate::uses(words, placeholder) == 1 {
            if text::occurrences(words[last]@, placeholder) == 1 {
                assert(one_holder(words, placeholder));
            } else {
                let k = choose|k: int|
                    {
                        &&& 0 <= k < front.len()
                        &&& text::occurrences((#[trigger] front[k])@, placeholder) == 1
                        &&& forall|j: int|
                            0 <= j < front.len() && j != k ==> text::occurrences(
                                (#[trigger] front[j])@,
                                placeholder,
                            ) == 0
                    };
                assert(text::occurrences(words[k]@, placeholder) == 1);
            }
        }
        if one_holder(words, placeholder) {
            let k = choose|k: int|
                {
                    &&& 0 <= k < words.len()
                    &&& text::occurrences((#[trigger] words[k])@, placeholder) == 1
                    &&& forall|j: int|
                        0 <= j < words.len() && j != k ==> text::occurrences(
                            (#[trigger] words[j])@,
                            placeholder,
                        ) == 0
                };
            if k < last {
                assert(text::occurrences(front[k]@, placeholder) == 1);
                assert(one_holder(front, placeholder));
            }
        }
    }
}

/// Where there is no finding at any place, there is none among all.
proof fn lemma_all_clear(n: nat, at: spec_fn(int) -> Option<Fault>)
    requires
        forall|i: int| 0 <= i < n ==> (#[trigger] at(i)) is None,
    ensures
        validate::first_fault(n, at) is None,
    decreases n,
{
    if n > 0 {
        lemma_all_clear((n - 1) as nat, at);
        assert(at(n - 1) is None);
    }
}

/// The first finding among all is that of the first place that has one.
proof fn lemma_where(n: nat, at: spec_fn(int) -> Option<Fault>) -> (i: int)
    requires
        validate::first_fault(n, at) is Some,
    ensures
        0 <= i < n,
        at(i) == validate::first_fault(n, at),
        forall|j: int| 0 <= j < i ==> (#[trigger] at(j)) is None,
    decreases n,
{
    if validate::first_fault((n - 1) as nat, at) is Some {
        lemma_where((n - 1) as nat, at)
    } else {
        validate::lemma_no_fault((n - 1) as nat, at);
        n - 1
    }
}

/// The member is listed by one of the first `n` devices.
spec fn carded(devices: Seq<Device>, n: int, m: Seq<char>) -> bool {
    exists|i: int, k: int|
        0 <= i < n && 0 <= k < devices[i].members@.len() && (
        #[trigger] devices[i].members@[k])@ == m
}

proof fn lemma_carded(devices: Seq<Device>, n: nat, m: Seq<char>)
    ensures
        validate::light_members(devices, n).contains(m) <==> carded(devices, n as int, m),
    decreases n,
{
    if n > 0 {
        lemma_carded(devices, (n - 1) as nat, m);
        let before = validate::light_members(devices, (n - 1) as nat);
        let own = text::texts(devices[n - 1].members@);
        let all = before + own;
        if all.contains(m) {
            let x = choose|x: int| 0 <= x < all.len() && all[x] == m;
            if x < before.len() {
                assert(before[x] == m);
                assert(before.contains(m));
                let (i, k) = choose|i: int, k: int|
                    0 <= i < n - 1 && 0 <= k < devices[i].members@.len() && (
                    #[trigger] devices[i].members@[k])@ == m;
                assert(devices[i].members@[k]@ == m);
            } else {
                let k = x - before.len();
                assert(own[k] == m);
                assert(devices[n - 1].members@[k]@ == m);
            }
        }
        if carded(devices, n as int, m) {
            let (i, k) = choose|i: int, k: int|
                0 <= i < n && 0 <= k < devices[i].members@.len() && (
                #[trigger] devices[i].members@[k])@ == m;
            if i < n - 1 {
                assert(carded(devices, n - 1, m));
                let x = choose|x: int| 0 <= x < before.len() && before[x] == m;
                assert(all[x] == m);
            } else {
                assert(all[before.len() + k] == m);
            }
        }
    }
}

/// The member is listed by one of the first `n` groups.
spec fn grouped(groups: Seq<Group>, n: int, m: Seq<char>) -> bool {
    exists|i: int, k: int|
        0 <= i < n && 0 <= k < groups[i].members@.len() && (#[trigger] groups[i].members@[k])@ == m
}

proof fn lemma_grouped(groups: Seq<Group>, n: nat, m: Seq<char>)
    ensures
        validate::group_members(groups, n).contains(m) <==> grouped(groups, n as int, m),
    decreases n,
{
    if n > 0 {
        lemma_grouped(groups, (n - 1) as nat, m);
        let before = validate::group_members(groups, (n - 1) as nat);
        let own = text::texts(groups[n - 1].members@);
        let all = before + own;
        if all.contains(m) {
            let x = choose|x: int| 0 <= x < all.len() && all[x] == m;
            if x < before.len() {
                assert(before[x] == m);
                assert(before.contains(m));
                let (i, k) = choose|i: int, k: int|
                    0 <= i < n - 1 && 0 <= k < groups[i].members@.len() && (
                    #[trigger] groups[i].members@[k])@ == m;
                assert(groups[i].members@[k]@ == m);
            } else {
                let k = x - before.len();
                assert(own[k] == m);
                assert(groups[n - 1].members@[k]@ == m);
            }
        }
        if grouped(groups, n as int, m) {
            let (i, k) = choose|i: int, k: int|
                0 <= i < n && 0 <= k < groups[i].members@.len() && (
                #[trigger] groups[i].members@[k])@ == m;
            if i < n - 1 {
                assert(grouped(groups, n - 1, m));
                let x = choose|x: int| 0 <= x < before.len() && before[x] == m;
                assert(all[x] == m);
            } else {
                assert(all[before.len() + k] == m);
            }
        }
    }
}

/// The member at `k` of the card at `i` is listed at an earlier place.
pub open spec fn carded_before(devices: Seq<Device>, i: int, k: int) -> bool {
    exists|j: int, l: int|
        {
            &&& 0 <= j < devices.len() && 0 <= l < devices[j].members@.len()
            &&& j < i || (j == i && l < k)
            &&& (#[trigger] devices[j].members@[l])@ == devices[i].members@[k]@
        }
}

proof fn lemma_carded_before(devices: Seq<Device>, i: int, k: int)
    requires
        0 <= i < devices.len(),
        0 <= k < devices[i].members@.len(),
    ensures
        (validate::light_members(devices, i as nat) + text::texts(devices[i].members@).take(
            k,
        )).contains(devices[i].members@[k]@) <==> carded_before(devices, i, k),
{
    let m = devices[i].members@[k]@;
    let before = validate::light_members(devices, i as nat);
    let own = text::texts(devices[i].members@).take(k);
    let all = before + own;
    lemma_carded(devices, i as nat, m);
    if all.contains(m) {
        let x = choose|x: int| 0 <= x < all.len() && all[x] == m;
        if x < before.len() {
            assert(before[x] == m);
            assert(before.contains(m));
            let (j, l) = choose|j: int, l: int|
                0 <= j < i && 0 <= l < devices[j].members@.len() && (
                #[trigger] devices[j].members@[l])@ == m;
            assert(devices[j].members@[l]@ == m);
        } else {
            let l = x - before.len();
            assert(own[l] == m);
            assert(devices[i].members@[l]@ == m);
        }
    }
    if carded_before(devices, i, k) {
        let (j, l) = choose|j: int, l: int|
            {
                &&& 0 <= j < devices.len() && 0 <= l < devices[j].members@.len()
                &&& j < i || (j == i && l < k)
                &&& (#[trigger] devices[j].members@[l])@ == devices[i].members@[k]@
            };
        if j < i {
            assert(carded(devices, i, m));
            let x = choose|x: int| 0 <= x < before.len() && before[x] == m;
            assert(all[x] == m);
        } else {
            assert(all[before.len() + l] == m);
        }
    }
}

/// The member at `k` of the group at `i` is listed at an earlier place.
pub open spec fn grouped_before(groups: Seq<Group>, i: int, k: int) -> bool {
    exists|j: int, l: int|
        {
            &&& 0 <= j < groups.len() && 0 <= l < groups[j].members@.len()
            &&& j < i || (j == i && l < k)
            &&& (#[trigger] groups[j].members@[l])@ == groups[i].members@[k]@
        }
}

proof fn lemma_grouped_before(groups: Seq<Group>, i: int, k: int)
    requires
        0 <= i < groups.len(),
        0 <= k < groups[i].members@.len(),
    ensures
        (validate::group_members(groups, i as nat) + text::texts(groups[i].members@).take(
            k,
        )).contains(groups[i].members@[k]@) <==> grouped_before(groups, i, k),
{
    let m = groups[i].members@[k]@;
    let before = validate::group_members(groups, i as nat);
    let own = text::texts(groups[i].members@).take(k);
    let all = before + own;
    lemma_grouped(groups, i as nat, m);
    if all.contains(m) {
        let x = choose|x: int| 0 <= x < all.len() && all[x] == m;
        if x < before.len() {
            assert(before[x] == m);
            assert(before.contains(m));
            let (j, l) = choose|j: int, l: int|
                0 <= j < i && 0 <= l < groups[j].members@.len() && (
                #[trigger] groups[j].members@[l])@ == m;
            assert(groups[j].members@[l]@ == m);
        } else {
            let l = x - before.len();
            assert(own[l] == m);
            assert(groups[i].members@[l]@ == m);
        }
    }
    if grouped_before(groups, i, k) {
        let (j, l) = choose|j: int, l: int|
            {
                &&& 0 <= j < groups.len() && 0 <= l < groups[j].members@.len()
                &&& j < i || (j == i && l < k)
                &&& (#[trigger] groups[j].members@[l])@ == groups[i].members@[k]@
            };
        if j < i {
            assert(grouped(groups, i, m));
            let x = choose|x: int| 0 <= x < before.len() && before[x] == m;
            assert(all[x] == m);
        } else {
            assert(all[before.len() + l] == m);
        }
    }
}

proof fn lemma_presets_clear(d: Device)
    ensures
        validate::presets_fault(d) is None <==> presets_fit(d.presets@),
{
    let presets = d.presets@;
    let at = |k: int| validate::preset_fault(d, k);
    if validate::presets_fault(d) is None {
        validate::lemma_no_fault(presets.len(), at);
        assert forall|k: int, l: int| 0 <= k < l < presets.len() implies (
        #[trigger] presets[k]).name@ != (#[trigger] presets[l]).name@ by {
            assert(at(l) is None);
        }
        assert forall|k: int| 0 <= k < presets.len() implies (#[trigger] presets[k]).cmd@.len()
            > 0 by {
            assert(at(k) is None);
        }
    }
    if presets_fit(presets) {
        assert forall|k: int| 0 <= k < presets.len() implies (#[trigger] at(k)) is None by {
            assert(presets[k].cmd@.len() > 0);
        }
        lemma_all_clear(presets.len(), at);
    }
}

proof fn lemma_device_clear(devices: Seq<Device>, i: int)
    requires
        0 <= i < devices.len(),
    ensures
        validate::device_fault(devices, i) is None && (devices[i].kind != Kind::Light
            ==> devices[i].members@.len() == 0) <==> fits_kind(devices[i]) && forall|j: int|
            0 <= j < i ==> (#[trigger] devices[j]).name@ != devices[i].name@,
{
    let d = devices[i];
    lemma_presets_clear(d);
    if let Some(t) = d.color {
        lemma_used_once(t@, "{color}"@);
    }
    if let Some(t) = d.brightness {
        lemma_used_once(t@, "{brightness}"@);
    }
}

proof fn lemma_plain(devices: Seq<Device>, name: Seq<char>, kind: Kind)
    requires
        forall|i: int, j: int|
            0 <= i < j < devices.len() ==> (#[trigger] devices[i]).name@ != (
            #[trigger] devices[j]).name@,
    ensures
        plain_device(devices, name, kind) <==> (config::find_device(devices, name) matches Some(d)
            && d.kind == kind && d.members@.len() == 0),
{
    crate::config_laws::lemma_find_device(devices, name);
}

/// Validation finds nothing exactly where the configuration keeps every rule:
/// no configuration that keeps them is refused, and none that breaks one is
/// taken.
pub proof fn lemma_validation_is_complete(c: Config)
    ensures
        c.fault() is None <==> keeps_rules(c),
{
    if c.fault() is None {
        lemma_taken_keeps_rules(c);
    }
    if keeps_rules(c) {
        lemma_keeper_is_taken(c);
    }
}

proof fn lemma_taken_keeps_rules(c: Config)
    requires
        c.fault() is None,
    ensures
        keeps_rules(c),
{
    let devices = c.devices@;
    let groups = c.groups@;
    let graphs = c.graphs@;
    validate::lemma_valid_names(c);
    validate::lemma_valid_groups(c);
    validate::lemma_valid_graphs(c);
    validate::lemma_valid_light_members(c);
    let of_device = |i: int| validate::device_fault(devices, i);
    let of_card = |i: int| validate::card_fault(devices, i);
    let of_group = |i: int| validate::group_fault(devices, groups, i);
    validate::lemma_no_fault(devices.len(), of_device);
    validate::lemma_no_fault(devices.len(), of_card);
    validate::lemma_no_fault(groups.len(), of_group);
    assert forall|i: int| 0 <= i < devices.len() implies fits_kind(#[trigger] devices[i]) by {
        assert(of_device(i) is None);
        assert(of_card(i) is None);
        lemma_device_clear(devices, i);
    }
    assert forall|i: int, k: int|
        #![trigger devices[i].members@[k]]
        0 <= i < devices.len() && 0 <= k < devices[i].members@.len() implies plain_device(
        devices,
        devices[i].members@[k]@,
        Kind::Light,
    ) by {
        lemma_plain(devices, devices[i].members@[k]@, Kind::Light);
    }
    assert forall|i: int, k: int, j: int, l: int|
        #![trigger devices[i].members@[k], devices[j].members@[l]]
        0 <= i < devices.len() && 0 <= k < devices[i].members@.len() && 0 <= j < devices.len() && 0
            <= l < devices[j].members@.len() && (i != j || k != l) implies devices[i].members@[k]@
        != devices[j].members@[l]@ by {
        if devices[i].members@[k]@ == devices[j].members@[l]@ {
            let (i, k, j, l) = if j < i || (j == i && l < k) {
                (i, k, j, l)
            } else {
                (j, l, i, k)
            };
            assert(of_card(i) is None);
            let at = |k: int| validate::light_member_fault(devices, i, k);
            validate::lemma_no_fault(devices[i].members@.len(), at);
            assert(at(k) is None);
            lemma_carded_before(devices, i, k);
            assert(devices[j].members@[l]@ == devices[i].members@[k]@);
        }
    }
    assert forall|i: int, k: int|
        #![trigger groups[i].members@[k]]
        0 <= i < groups.len() && 0 <= k < groups[i].members@.len() implies plain_device(
        devices,
        groups[i].members@[k]@,
        Kind::Shutter,
    ) by {
        lemma_plain(devices, groups[i].members@[k]@, Kind::Shutter);
        crate::config_laws::lemma_find_device(devices, groups[i].members@[k]@);
    }
    assert forall|i: int, k: int, j: int, l: int|
        #![trigger groups[i].members@[k], groups[j].members@[l]]
        0 <= i < groups.len() && 0 <= k < groups[i].members@.len() && 0 <= j < groups.len() && 0
            <= l < groups[j].members@.len() && (i != j || k != l) implies groups[i].members@[k]@
        != groups[j].members@[l]@ by {
        if groups[i].members@[k]@ == groups[j].members@[l]@ {
            let (i, k, j, l) = if j < i || (j == i && l < k) {
                (i, k, j, l)
            } else {
                (j, l, i, k)
            };
            assert(of_group(i) is None);
            let at = |k: int| validate::group_member_fault(devices, groups, i, k);
            validate::lemma_no_fault(groups[i].members@.len(), at);
            assert(at(k) is None);
            lemma_grouped_before(groups, i, k);
            assert(groups[j].members@[l]@ == groups[i].members@[k]@);
        }
    }
    assert forall|i: int| 0 <= i < graphs.len() implies one_holder(
        (#[trigger] graphs[i]).query@,
        "{period}"@,
    ) by {
        lemma_used_once(graphs[i].query@, "{period}"@);
    }
}

proof fn lemma_keeper_is_taken(c: Config)
    requires
        keeps_rules(c),
    ensures
        c.fault() is None,
{
    let devices = c.devices@;
    let groups = c.groups@;
    let graphs = c.graphs@;
    let of_device = |i: int| validate::device_fault(devices, i);
    let of_card = |i: int| validate::card_fault(devices, i);
    let of_group = |i: int| validate::group_fault(devices, groups, i);
    let of_graph = |i: int| validate::graph_fault(graphs, i);
    assert forall|i: int| 0 <= i < devices.len() implies (#[trigger] of_device(i)) is None by {
        lemma_device_clear(devices, i);
        assert(fits_kind(devices[i]));
    }
    lemma_all_clear(devices.len(), of_device);
    assert forall|i: int| 0 <= i < devices.len() implies (#[trigger] of_card(i)) is None by {
        assert(fits_kind(devices[i]));
        let at = |k: int| validate::light_member_fault(devices, i, k);
        assert forall|k: int| 0 <= k < devices[i].members@.len() implies (
        #[trigger] at(k)) is None by {
            lemma_plain(devices, devices[i].members@[k]@, Kind::Light);
            lemma_carded_before(devices, i, k);
        }
        lemma_all_clear(devices[i].members@.len(), at);
    }
    lemma_all_clear(devices.len(), of_card);
    assert forall|i: int| 0 <= i < groups.len() implies (#[trigger] of_group(i)) is None by {
        assert(groups[i].members@.len() > 0);
        let at = |k: int| validate::group_member_fault(devices, groups, i, k);
        assert forall|k: int| 0 <= k < groups[i].members@.len() implies (
        #[trigger] at(k)) is None by {
            lemma_plain(devices, groups[i].members@[k]@, Kind::Shutter);
            lemma_grouped_before(groups, i, k);
        }
        lemma_all_clear(groups[i].members@.len(), at);
    }
    lemma_all_clear(groups.len(), of_group);
    assert forall|i: int| 0 <= i < graphs.len() implies (#[trigger] of_graph(i)) is None by {
        lemma_used_once(graphs[i].query@, "{period}"@);
        assert(one_holder(graphs[i].query@, "{period}"@));
    }
    lemma_all_clear(graphs.len(), of_graph);
}

/// A placeholder is counted over all words.
pub proof fn lemma_uses_add_up(words: Seq<String>, word: String, placeholder: Seq<char>)
    ensures
        validate::uses(Seq::empty(), placeholder) == 0,
        validate::uses(words.push(word), placeholder) == validate::uses(words, placeholder)
            + text::occurrences(word@, placeholder),
{
    assert(words.push(word).drop_last() =~= words);
}

/// A command that is given without a word.
pub open spec fn hollow(cmd: Option<Vec<String>>) -> bool {
    cmd matches Some(c) && c@.len() == 0
}

/// One of the commands of the device is given without a word.
pub open spec fn has_hollow(d: Device) -> bool {
    ||| d.get_state@.len() == 0
    ||| hollow(d.open) || hollow(d.close) || hollow(d.stop) || hollow(d.on) || hollow(d.off)
    ||| hollow(d.color) || hollow(d.brightness)
    ||| exists|k: int| 0 <= k < d.presets@.len() && (#[trigger] d.presets@[k]).cmd@.len() == 0
}

/// The device lacks the command of that name, which its kind needs.
pub open spec fn lacks(d: Device, field: Seq<char>) -> bool {
    match d.kind {
        Kind::Shutter => (field == "open"@ && d.open is None) || (field == "close"@
            && d.close is None),
        _ => (field == "on"@ && d.on is None) || (field == "off"@ && d.off is None),
    }
}

/// The device has the field of that name, which its kind does not take.
pub open spec fn oversteps(d: Device, field: Seq<char>) -> bool {
    ||| field == "members"@ && d.members@.len() > 0 && d.kind != Kind::Light
    ||| field == "preset"@ && d.presets@.len() > 0 && d.kind != Kind::Light
    ||| field == "color"@ && d.color is Some && d.kind != Kind::Light
    ||| field == "brightness"@ && d.brightness is Some && d.kind != Kind::Light
    ||| field == "face"@ && d.face is Some && d.kind != Kind::Switch
    ||| field == "on"@ && d.on is Some && d.kind == Kind::Shutter
    ||| field == "off"@ && d.off is Some && d.kind == Kind::Shutter
    ||| field == "open"@ && d.open is Some && d.kind != Kind::Shutter
    ||| field == "close"@ && d.close is Some && d.kind != Kind::Shutter
    ||| field == "stop"@ && d.stop is Some && d.kind != Kind::Shutter
}

/// A template does not hold its placeholder once but that often.
pub open spec fn misfilled(template: Seq<String>, placeholder: Seq<char>, count: usize) -> bool {
    &&& template.len() > 0
    &&& !one_holder(template, placeholder)
    &&& validate::uses(template, placeholder) <= usize::MAX ==> count == validate::uses(
        template,
        placeholder,
    )
    &&& validate::uses(template, placeholder) > usize::MAX ==> count == usize::MAX
}

/// The fault is one that the device at `i` has.
pub open spec fn real_device_fault(devices: Seq<Device>, i: int, f: Fault) -> bool {
    let d = devices[i];
    match f {
        Fault::DuplicateName(n) => n == d.name@ && exists|j: int|
            0 <= j < i && (#[trigger] devices[j]).name@ == n,
        Fault::EmptyCommand(n) => n == d.name@ && has_hollow(d),
        Fault::MissingCommand { device, field } => device == d.name@ && lacks(d, field),
        Fault::ForbiddenField { device, field } => device == d.name@ && oversteps(d, field),
        Fault::DuplicatePreset { device, preset } => device == d.name@ && exists|k: int, l: int|
            0 <= k < l < d.presets@.len() && (#[trigger] d.presets@[k]).name@ == preset && (
            #[trigger] d.presets@[l]).name@ == preset,
        Fault::ColorPlaceholder { device, count } => device == d.name@ && (d.color matches Some(t)
            && misfilled(t@, "{color}"@, count)),
        Fault::BrightnessPlaceholder { device, count } => device == d.name@ && (
        d.brightness matches Some(t) && misfilled(t@, "{brightness}"@, count)),
        _ => false,
    }
}

/// The fault is one that a member of the card at `i` has.
pub open spec fn real_card_fault(devices: Seq<Device>, i: int, f: Fault) -> bool {
    let d = devices[i];
    match f {
        Fault::ForbiddenField { device, field } => device == d.name@ && oversteps(d, field),
        Fault::UnknownLightMember { device, member } => device == d.name@ && text::texts(
            d.members@,
        ).contains(member) && forall|j: int|
            0 <= j < devices.len() ==> (#[trigger] devices[j]).name@ != member,
        Fault::NonLightMember { device, member } => device == d.name@ && text::texts(
            d.members@,
        ).contains(member) && exists|j: int|
            0 <= j < devices.len() && (#[trigger] devices[j]).name@ == member && devices[j].kind
                != Kind::Light,
        Fault::NestedLightMembers { device, member } => device == d.name@ && text::texts(
            d.members@,
        ).contains(member) && exists|j: int|
            0 <= j < devices.len() && (#[trigger] devices[j]).name@ == member
                && devices[j].members@.len() > 0,
        Fault::DuplicateLightMember { member } => exists|k: int, j: int, l: int|
            {
                &&& 0 <= k < d.members@.len() && 0 <= j < devices.len() && 0 <= l
                    < devices[j].members@.len() && (j != i || l != k)
                &&& (#[trigger] d.members@[k])@ == member
                &&& (#[trigger] devices[j].members@[l])@ == member
            },
        _ => false,
    }
}

/// The fault is one that the group at `i` has.
pub open spec fn real_group_fault(
    devices: Seq<Device>,
    groups: Seq<Group>,
    i: int,
    f: Fault,
) -> bool {
    let g = groups[i];
    match f {
        Fault::DuplicateGroup(n) => n == g.name@ && exists|j: int|
            0 <= j < i && (#[trigger] groups[j]).name@ == n,
        Fault::EmptyGroup(n) => n == g.name@ && g.members@.len() == 0,
        Fault::UnknownMember { group, member } => group == g.name@ && text::texts(
            g.members@,
        ).contains(member) && forall|j: int|
            0 <= j < devices.len() ==> (#[trigger] devices[j]).name@ != member,
        Fault::NonShutterInGroup { group, member } => group == g.name@ && text::texts(
            g.members@,
        ).contains(member) && exists|j: int|
            0 <= j < devices.len() && (#[trigger] devices[j]).name@ == member && devices[j].kind
                != Kind::Shutter,
        Fault::DuplicateGroupMember { device } => exists|k: int, j: int, l: int|
            {
                &&& 0 <= k < g.members@.len() && 0 <= j < groups.len() && 0 <= l
                    < groups[j].members@.len() && (j != i || l != k)
                &&& (#[trigger] g.members@[k])@ == device
                &&& (#[trigger] groups[j].members@[l])@ == device
            },
        _ => false,
    }
}

/// The fault is one that the graph at `i` has.
pub open spec fn real_graph_fault(graphs: Seq<Graph>, i: int, f: Fault) -> bool {
    let g = graphs[i];
    match f {
        Fault::DuplicateGraph(n) => n == g.name@ && exists|j: int|
            0 <= j < i && (#[trigger] graphs[j]).name@ == n,
        Fault::EmptyGraphQuery(n) => n == g.name@ && g.query@.len() == 0,
        Fault::PeriodPlaceholder { graph, count } => graph == g.name@ && misfilled(
            g.query@,
            "{period}"@,
            count,
        ),
        _ => false,
    }
}

/// The fault is one that the configuration has.
pub open spec fn real_fault(c: Config, f: Fault) -> bool {
    ||| f == Fault::Empty && c.devices@.len() == 0
    ||| exists|i: int| 0 <= i < c.devices@.len() && #[trigger] real_device_fault(c.devices@, i, f)
    ||| exists|i: int| 0 <= i < c.devices@.len() && #[trigger] real_card_fault(c.devices@, i, f)
    ||| exists|i: int|
        0 <= i < c.groups@.len() && #[trigger] real_group_fault(c.devices@, c.groups@, i, f)
    ||| exists|i: int| 0 <= i < c.graphs@.len() && #[trigger] real_graph_fault(c.graphs@, i, f)
    ||| f == Fault::EmptyHealthCommand && (c.health matches Some(h) && h.command@.len() == 0)
    ||| f == Fault::EmptyPushListen && (c.push matches Some(p) && p.listen@.len() == 0)
    ||| f == Fault::EmptyMeshCommand && (c.mesh matches Some(m) && m.command@.len() == 0)
}

proof fn lemma_real_device_fault(devices: Seq<Device>, i: int)
    requires
        0 <= i < devices.len(),
        validate::device_fault(devices, i) is Some,
    ensures
        real_device_fault(devices, i, validate::device_fault(devices, i)->0),
{
    let d = devices[i];
    if let Some(t) = d.color {
        lemma_used_once(t@, "{color}"@);
    }
    if let Some(t) = d.brightness {
        lemma_used_once(t@, "{brightness}"@);
    }
    if validate::presets_fault(d) is Some {
        let at = |k: int| validate::preset_fault(d, k);
        let k = lemma_where(d.presets@.len(), at);
        assert(validate::preset_fault(d, k) == validate::presets_fault(d));
        if exists|j: int| 0 <= j < k && #[trigger] d.presets@[j].name@ == d.presets@[k].name@ {
            let j = choose|j: int|
                0 <= j < k && #[trigger] d.presets@[j].name@ == d.presets@[k].name@;
            assert(d.presets@[j].name@ == d.presets@[k].name@);
        }
    }
}

proof fn lemma_real_card_fault(devices: Seq<Device>, i: int)
    requires
        0 <= i < devices.len(),
        validate::card_fault(devices, i) is Some,
    ensures
        real_card_fault(devices, i, validate::card_fault(devices, i)->0),
{
    let d = devices[i];
    if d.kind == Kind::Light {
        let at = |k: int| validate::light_member_fault(devices, i, k);
        let k = lemma_where(d.members@.len(), at);
        let m = d.members@[k]@;
        assert(text::texts(d.members@)[k] == m);
        crate::config_laws::lemma_find_device(devices, m);
        lemma_carded_before(devices, i, k);
        if carded_before(devices, i, k) {
            let (j, l) = choose|j: int, l: int|
                {
                    &&& 0 <= j < devices.len() && 0 <= l < devices[j].members@.len()
                    &&& j < i || (j == i && l < k)
                    &&& (#[trigger] devices[j].members@[l])@ == devices[i].members@[k]@
                };
            assert(d.members@[k]@ == m && devices[j].members@[l]@ == m);
        }
    }
}

proof fn lemma_real_group_fault(devices: Seq<Device>, groups: Seq<Group>, i: int)
    requires
        0 <= i < groups.len(),
        validate::group_fault(devices, groups, i) is Some,
    ensures
        real_group_fault(devices, groups, i, validate::group_fault(devices, groups, i)->0),
{
    let g = groups[i];
    if g.members@.len() > 0 && !(exists|j: int|
        0 <= j < i && #[trigger] groups[j].name@ == g.name@) {
        let at = |k: int| validate::group_member_fault(devices, groups, i, k);
        let k = lemma_where(g.members@.len(), at);
        let m = g.members@[k]@;
        assert(text::texts(g.members@)[k] == m);
        crate::config_laws::lemma_find_device(devices, m);
        lemma_grouped_before(groups, i, k);
        if grouped_before(groups, i, k) {
            let (j, l) = choose|j: int, l: int|
                {
                    &&& 0 <= j < groups.len() && 0 <= l < groups[j].members@.len()
                    &&& j < i || (j == i && l < k)
                    &&& (#[trigger] groups[j].members@[l])@ == groups[i].members@[k]@
                };
            assert(g.members@[k]@ == m && groups[j].members@[l]@ == m);
        }
    }
}

/// What validation reports is so: the named device, group or graph breaks the
/// rule that it is said to break.
pub proof fn lemma_reported_fault_is_real(c: Config)
    ensures
        c.fault() matches Some(f) ==> real_fault(c, f),
{
    let devices = c.devices@;
    let groups = c.groups@;
    let graphs = c.graphs@;
    if devices.len() > 0 {
        if validate::devices_fault(devices) is Some {
            let at = |i: int| validate::device_fault(devices, i);
            let i = lemma_where(devices.len(), at);
            lemma_real_device_fault(devices, i);
        } else if validate::cards_fault(devices) is Some {
            let at = |i: int| validate::card_fault(devices, i);
            let i = lemma_where(devices.len(), at);
            lemma_real_card_fault(devices, i);
        } else if validate::groups_fault(devices, groups) is Some {
            let at = |i: int| validate::group_fault(devices, groups, i);
            let i = lemma_where(groups.len(), at);
            lemma_real_group_fault(devices, groups, i);
        } else if validate::graphs_fault(graphs) is Some {
            let at = |i: int| validate::graph_fault(graphs, i);
            let i = lemma_where(graphs.len(), at);
            lemma_used_once(graphs[i].query@, "{period}"@);
            assert(real_graph_fault(graphs, i, validate::graph_fault(graphs, i)->0));
        }
    }
}

proof fn lemma_prefix_fault(
    n: nat,
    m: nat,
    a: spec_fn(int) -> Option<Fault>,
    b: spec_fn(int) -> Option<Fault>,
)
    requires
        n <= m,
        forall|i: int| 0 <= i < n ==> #[trigger] a(i) == b(i),
        validate::first_fault(n, a) is Some,
    ensures
        validate::first_fault(m, b) == validate::first_fault(n, a),
    decreases m,
{
    if n < m {
        lemma_prefix_fault(n, (m - 1) as nat, a, b);
    } else {
        lemma_same_faults(n, a, b);
    }
}

proof fn lemma_same_faults(
    n: nat,
    a: spec_fn(int) -> Option<Fault>,
    b: spec_fn(int) -> Option<Fault>,
)
    requires
        forall|i: int| 0 <= i < n ==> #[trigger] a(i) == b(i),
    ensures
        validate::first_fault(n, b) == validate::first_fault(n, a),
    decreases n,
{
    if n > 0 {
        lemma_same_faults((n - 1) as nat, a, b);
        assert(a(n - 1) == b(n - 1));
    }
}

/// Nothing but devices is configured.
pub open spec fn only_devices(c: Config) -> bool {
    c.groups@.len() == 0 && c.graphs@.len() == 0 && c.health is None && c.push is None
        && c.mesh is None
}

proof fn lemma_no_cards(devices: Seq<Device>)
    requires
        forall|i: int| 0 <= i < devices.len() ==> (#[trigger] devices[i]).members@.len() == 0,
    ensures
        validate::cards_fault(devices) is None,
{
    let at = |i: int| validate::card_fault(devices, i);
    assert forall|i: int| 0 <= i < devices.len() implies (#[trigger] at(i)) is None by {
        assert(devices[i].members@.len() == 0);
    }
    lemma_all_clear(devices.len(), at);
}

/// A fault of the first devices is the one that is reported, whatever devices
/// follow and whatever else is configured. (Members of cards are checked after
/// all devices.)
pub proof fn lemma_devices_come_first(a: Config, b: Config)
    requires
        0 < a.devices@.len() <= b.devices@.len(),
        a.devices@ == b.devices@.take(a.devices@.len() as int),
        only_devices(a),
        forall|i: int|
            0 <= i < a.devices@.len() ==> (#[trigger] a.devices@[i]).members@.len() == 0,
        a.fault() is Some,
    ensures
        b.fault() == a.fault(),
{
    let x = a.devices@;
    let y = b.devices@;
    lemma_no_cards(x);
    lemma_clear_rest(a);
    let p = |i: int| validate::device_fault(x, i);
    let q = |i: int| validate::device_fault(y, i);
    assert forall|i: int| 0 <= i < x.len() implies #[trigger] p(i) == q(i) by {
        assert forall|j: int| 0 <= j <= i implies x[j] == #[trigger] y[j] by {}
        if exists|j: int| 0 <= j < i && #[trigger] y[j].name@ == y[i].name@ {
            let j = choose|j: int| 0 <= j < i && #[trigger] y[j].name@ == y[i].name@;
            assert(x[j].name@ == x[i].name@);
        }
        if exists|j: int| 0 <= j < i && #[trigger] x[j].name@ == x[i].name@ {
            let j = choose|j: int| 0 <= j < i && #[trigger] x[j].name@ == x[i].name@;
            assert(y[j].name@ == y[i].name@);
        }
    }
    lemma_prefix_fault(x.len(), y.len(), p, q);
}

proof fn lemma_clear_rest(a: Config)
    requires
        only_devices(a),
    ensures
        validate::groups_fault(a.devices@, a.groups@) is None,
        validate::graphs_fault(a.graphs@) is None,
        validate::commands_fault(a.health, a.push, a.mesh) is None,
{
}

/// A fault of the devices or of their members is the one that is reported,
/// whatever else is configured.
pub proof fn lemma_devices_come_before_the_rest(a: Config, b: Config)
    requires
        a.devices@ == b.devices@,
        only_devices(a),
        a.fault() is Some,
    ensures
        b.fault() == a.fault(),
{
    lemma_clear_rest(a);
}

/// A fault of the first groups is reported whatever groups follow, and before
/// any of graphs and other commands.
pub proof fn lemma_groups_come_next(a: Config, b: Config)
    requires
        a.devices@ == b.devices@,
        a.groups@.len() <= b.groups@.len(),
        a.groups@ == b.groups@.take(a.groups@.len() as int),
        a.graphs@.len() == 0 && a.health is None && a.push is None && a.mesh is None,
        a.fault() is Some,
    ensures
        b.fault() == a.fault(),
{
    let devices = a.devices@;
    let x = a.groups@;
    let y = b.groups@;
    let p = |i: int| validate::group_fault(devices, x, i);
    let q = |i: int| validate::group_fault(devices, y, i);
    assert forall|i: int| 0 <= i < x.len() implies #[trigger] p(i) == q(i) by {
        assert forall|j: int| 0 <= j <= i implies x[j] == #[trigger] y[j] by {}
        if exists|j: int| 0 <= j < i && #[trigger] y[j].name@ == y[i].name@ {
            let j = choose|j: int| 0 <= j < i && #[trigger] y[j].name@ == y[i].name@;
            assert(x[j].name@ == x[i].name@);
        }
        if exists|j: int| 0 <= j < i && #[trigger] x[j].name@ == x[i].name@ {
            let j = choose|j: int| 0 <= j < i && #[trigger] x[j].name@ == x[i].name@;
            assert(y[j].name@ == y[i].name@);
        }
        lemma_same_members(x, y, i as nat);
        let u = |k: int| validate::group_member_fault(devices, x, i, k);
        let v = |k: int| validate::group_member_fault(devices, y, i, k);
        assert forall|k: int| 0 <= k < x[i].members@.len() implies #[trigger] u(k) == v(k) by {}
        lemma_same_faults(x[i].members@.len(), u, v);
    }
    if validate::groups_fault(devices, x) is Some {
        lemma_prefix_fault(x.len(), y.len(), p, q);
    }
}

proof fn lemma_same_members(x: Seq<Group>, y: Seq<Group>, n: nat)
    requires
        n <= x.len(),
        forall|j: int| 0 <= j < n ==> x[j] == #[trigger] y[j],
    ensures
        validate::group_members(x, n) == validate::group_members(y, n),
    decreases n,
{
    if n > 0 {
        lemma_same_members(x, y, (n - 1) as nat);
        assert(x[n - 1] == y[n - 1]);
    }
}

/// A fault of the first graphs is reported whatever graphs follow, and before
/// any of other commands.
pub proof fn lemma_graphs_come_next(a: Config, b: Config)
    requires
        a.devices@ == b.devices@,
        a.groups@ == b.groups@,
        a.graphs@.len() <= b.graphs@.len(),
        a.graphs@ == b.graphs@.take(a.graphs@.len() as int),
        a.health is None && a.push is None && a.mesh is None,
        a.fault() is Some,
    ensures
        b.fault() == a.fault(),
{
    let x = a.graphs@;
    let y = b.graphs@;
    let p = |i: int| validate::graph_fault(x, i);
    let q = |i: int| validate::graph_fault(y, i);
    assert forall|i: int| 0 <= i < x.len() implies #[trigger] p(i) == q(i) by {
        assert forall|j: int| 0 <= j <= i implies x[j] == #[trigger] y[j] by {}
        if exists|j: int| 0 <= j < i && #[trigger] y[j].name@ == y[i].name@ {
            let j = choose|j: int| 0 <= j < i && #[trigger] y[j].name@ == y[i].name@;
            assert(x[j].name@ == x[i].name@);
        }
        if exists|j: int| 0 <= j < i && #[trigger] x[j].name@ == x[i].name@ {
            let j = choose|j: int| 0 <= j < i && #[trigger] x[j].name@ == x[i].name@;
            assert(y[j].name@ == y[i].name@);
        }
    }
    if validate::graphs_fault(x) is Some {
        lemma_prefix_fault(x.len(), y.len(), p, q);
    }
}

/// What is reported of a shutter: the first of its rules, in this order, that
/// it breaks.
pub open spec fn shutter_in_turn(d: Device, f: Option<Fault>) -> bool {
    if d.open is None {
        f == Some(Fault::MissingCommand { device: d.name@, field: "open"@ })
    } else if hollow(d.open) {
        f == Some(Fault::EmptyCommand(d.name@))
    } else if d.close is None {
        f == Some(Fault::MissingCommand { device: d.name@, field: "close"@ })
    } else if hollow(d.close) {
        f == Some(Fault::EmptyCommand(d.name@))
    } else if d.on is Some {
        f == Some(Fault::ForbiddenField { device: d.name@, field: "on"@ })
    } else if d.off is Some {
        f == Some(Fault::ForbiddenField { device: d.name@, field: "off"@ })
    } else if d.color is Some {
        f == Some(Fault::ForbiddenField { device: d.name@, field: "color"@ })
    } else if d.brightness is Some {
        f == Some(Fault::ForbiddenField { device: d.name@, field: "brightness"@ })
    } else if d.face is Some {
        f == Some(Fault::ForbiddenField { device: d.name@, field: "face"@ })
    } else if d.presets@.len() > 0 {
        f == Some(Fault::ForbiddenField { device: d.name@, field: "preset"@ })
    } else if hollow(d.stop) {
        f == Some(Fault::EmptyCommand(d.name@))
    } else {
        f is None
    }
}

/// What is reported of a switch: the first of its rules, in this order, that
/// it breaks.
pub open spec fn switch_in_turn(d: Device, f: Option<Fault>) -> bool {
    if d.on is None {
        f == Some(Fault::MissingCommand { device: d.name@, field: "on"@ })
    } else if hollow(d.on) {
        f == Some(Fault::EmptyCommand(d.name@))
    } else if d.off is None {
        f == Some(Fault::MissingCommand { device: d.name@, field: "off"@ })
    } else if hollow(d.off) {
        f == Some(Fault::EmptyCommand(d.name@))
    } else if d.open is Some {
        f == Some(Fault::ForbiddenField { device: d.name@, field: "open"@ })
    } else if d.close is Some {
        f == Some(Fault::ForbiddenField { device: d.name@, field: "close"@ })
    } else if d.stop is Some {
        f == Some(Fault::ForbiddenField { device: d.name@, field: "stop"@ })
    } else if d.color is Some {
        f == Some(Fault::ForbiddenField { device: d.name@, field: "color"@ })
    } else if d.brightness is Some {
        f == Some(Fault::ForbiddenField { device: d.name@, field: "brightness"@ })
    } else if d.presets@.len() > 0 {
        f == Some(Fault::ForbiddenField { device: d.name@, field: "preset"@ })
    } else {
        f is None
    }
}

/// The preset at `k` is the first that shares the name of an earlier one or
/// has no command, and it is reported for that.
pub open spec fn first_bad_preset(d: Device, k: int, f: Option<Fault>) -> bool {
    let presets = d.presets@;
    &&& 0 <= k < presets.len()
    &&& presets_fit(presets.take(k))
    &&& !presets_fit(presets.take(k + 1))
    &&& if exists|j: int| 0 <= j < k && (#[trigger] presets[j]).name@ == presets[k].name@ {
        f == Some(Fault::DuplicatePreset { device: d.name@, preset: presets[k].name@ })
    } else {
        f == Some(Fault::EmptyCommand(d.name@))
    }
}

/// What is reported of the templates of a light: that for colours first.
pub open spec fn templates_in_turn(d: Device, f: Option<Fault>) -> bool {
    if hollow(d.color) {
        f == Some(Fault::EmptyCommand(d.name@))
    } else if !fillable(d.color, "{color}"@) {
        f matches Some(Fault::ColorPlaceholder { device, .. }) && device == d.name@
    } else if hollow(d.brightness) {
        f == Some(Fault::EmptyCommand(d.name@))
    } else if !fillable(d.brightness, "{brightness}"@) {
        f matches Some(Fault::BrightnessPlaceholder { device, .. }) && device == d.name@
    } else {
        f is None
    }
}

/// What is reported of a light: the first of its rules, in this order, that it
/// breaks.
pub open spec fn light_in_turn(d: Device, f: Option<Fault>) -> bool {
    if d.on is None {
        f == Some(Fault::MissingCommand { device: d.name@, field: "on"@ })
    } else if hollow(d.on) {
        f == Some(Fault::EmptyCommand(d.name@))
    } else if d.off is None {
        f == Some(Fault::MissingCommand { device: d.name@, field: "off"@ })
    } else if hollow(d.off) {
        f == Some(Fault::EmptyCommand(d.name@))
    } else if d.open is Some {
        f == Some(Fault::ForbiddenField { device: d.name@, field: "open"@ })
    } else if d.close is Some {
        f == Some(Fault::ForbiddenField { device: d.name@, field: "close"@ })
    } else if d.stop is Some {
        f == Some(Fault::ForbiddenField { device: d.name@, field: "stop"@ })
    } else if d.face is Some {
        f == Some(Fault::ForbiddenField { device: d.name@, field: "face"@ })
    } else {
        {
            &&& !presets_fit(d.presets@) ==> exists|k: int| #[trigger] first_bad_preset(d, k, f)
            &&& presets_fit(d.presets@) ==> templates_in_turn(d, f)
        }
    }
}

proof fn lemma_first(n: nat, at: spec_fn(int) -> Option<Fault>, k: int)
    requires
        0 <= k < n,
        forall|j: int| 0 <= j < k ==> (#[trigger] at(j)) is None,
        at(k) is Some,
    ensures
        validate::first_fault(n, at) == at(k),
    decreases n,
{
    if k == n - 1 {
        lemma_all_clear((n - 1) as nat, at);
    } else {
        lemma_first((n - 1) as nat, at, k);
    }
}

proof fn lemma_presets_in_turn(d: Device) -> (k: int)
    ensures
        presets_fit(d.presets@) <==> validate::presets_fault(d) is None,
        validate::presets_fault(d) is Some ==> first_bad_preset(
            d,
            k,
            validate::presets_fault(d),
        ),
{
    let at = |k: int| validate::preset_fault(d, k);
    let k = lemma_presets_to(d, d.presets@.len());
    assert(d.presets@.take(d.presets@.len() as int) =~= d.presets@);
    k
}

proof fn lemma_presets_to(d: Device, n: nat) -> (k: int)
    requires
        n <= d.presets@.len(),
    ensures
        ({
            let f = validate::first_fault(n, |k: int| validate::preset_fault(d, k));
            &&& presets_fit(d.presets@.take(n as int)) <==> f is None
            &&& f is Some ==> first_bad_preset(d, k, f)
        }),
    decreases n,
{
    let at = |k: int| validate::preset_fault(d, k);
    let presets = d.presets@;
    if n == 0 {
        assert(presets_fit(presets.take(0)));
        0
    } else {
        let m = n - 1;
        let k = lemma_presets_to(d, m as nat);
        let a = presets.take(m);
        let b = presets.take(n as int);
        assert forall|i: int| 0 <= i < m implies a[i] == #[trigger] b[i] by {}
        assert forall|i: int| 0 <= i < n implies presets[i] == #[trigger] b[i] by {}
        if !presets_fit(a) {
            if exists|i: int| 0 <= i < a.len() && (#[trigger] a[i]).cmd@.len() == 0 {
                let i = choose|i: int| 0 <= i < a.len() && (#[trigger] a[i]).cmd@.len() == 0;
                assert(b[i].cmd@.len() == 0);
            } else {
                let (i, j) = choose|i: int, j: int|
                    0 <= i < j < a.len() && (#[trigger] a[i]).name@ == (#[trigger] a[j]).name@;
                assert(b[i].name@ == b[j].name@);
            }
            assert(!presets_fit(b));
            k
        } else {
            if exists|j: int| 0 <= j < m && #[trigger] presets[j].name@ == presets[m].name@ {
                let j = choose|j: int|
                    0 <= j < m && #[trigger] presets[j].name@ == presets[m].name@;
                assert(b[j].name@ == b[m].name@);
                assert(!presets_fit(b));
            } else if presets[m].cmd@.len() == 0 {
                assert(b[m].cmd@.len() == 0);
                assert(!presets_fit(b));
            } else {
                assert forall|i: int, j: int| 0 <= i < j < b.len() implies (
                #[trigger] b[i]).name@ != (#[trigger] b[j]).name@ by {
                    assert(presets[i] == b[i] && presets[j] == b[j]);
                    if j < m {
                        assert(a[i].name@ != a[j].name@);
                    }
                }
                assert forall|i: int| 0 <= i < b.len() implies (#[trigger] b[i]).cmd@.len() > 0 by {
                    if i < m {
                        assert(a[i].cmd@.len() > 0);
                    }
                }
                assert(presets_fit(b));
            }
            m
        }
    }
}

/// A device that shares the name of an earlier one is reported for that, then
/// one without a command that reads its state, then the first of the rules of
/// its kind that it breaks.
pub proof fn lemma_rules_in_turn(devices: Seq<Device>, i: int)
    requires
        0 <= i < devices.len(),
    ensures
        ({
            let d = devices[i];
            let f = validate::device_fault(devices, i);
            if exists|j: int| 0 <= j < i && (#[trigger] devices[j]).name@ == d.name@ {
                f == Some(Fault::DuplicateName(d.name@))
            } else if d.get_state@.len() == 0 {
                f == Some(Fault::EmptyCommand(d.name@))
            } else {
                &&& d.kind == Kind::Shutter ==> shutter_in_turn(d, f)
                &&& d.kind == Kind::Switch ==> switch_in_turn(d, f)
                &&& d.kind == Kind::Light ==> light_in_turn(d, f)
            }
        }),
{
    let d = devices[i];
    if exists|j: int| 0 <= j < i && (#[trigger] devices[j]).name@ == d.name@ {
        let j = choose|j: int| 0 <= j < i && (#[trigger] devices[j]).name@ == d.name@;
        assert(devices[j].name@ == d.name@);
    } else {
        assert(!(exists|j: int| 0 <= j < i && #[trigger] devices[j].name@ == d.name@));
        let k = lemma_presets_in_turn(d);
        if let Some(t) = d.color {
            lemma_used_once(t@, "{color}"@);
        }
        if let Some(t) = d.brightness {
            lemma_used_once(t@, "{brightness}"@);
        }
        if d.kind == Kind::Light && d.get_state@.len() > 0 {
            lemma_light_in_turn(d, k);
        }
    }
}

proof fn lemma_light_in_turn(d: Device, k: int)
    requires
        presets_fit(d.presets@) <==> validate::presets_fault(d) is None,
        validate::presets_fault(d) is Some ==> first_bad_preset(
            d,
            k,
            validate::presets_fault(d),
        ),
        d.color matches Some(t) ==> (validate::uses(t@, "{color}"@) == 1 <==> one_holder(
            t@,
            "{color}"@,
        )),
        d.brightness matches Some(t) ==> (validate::uses(t@, "{brightness}"@) == 1
            <==> one_holder(t@, "{brightness}"@)),
    ensures
        light_in_turn(d, validate::light_fault(d)),
{
    let f = validate::light_fault(d);
    if !presets_fit(d.presets@) && validate::needs(d.name@, "on"@, d.on) is None
        && validate::needs(d.name@, "off"@, d.off) is None && d.open is None && d.close is None
        && d.stop is None && d.face is None {
        assert(f == validate::presets_fault(d));
        assert(first_bad_preset(d, k, f));
    }
}

/// The first device with a member that is not allowed is reported, for the
/// first of these members.
pub proof fn lemma_cards_in_turn(devices: Seq<Device>, i: int, k: int)
    requires
        0 <= i < devices.len(),
        forall|j: int| 0 <= j < i ==> (#[trigger] validate::card_fault(devices, j)) is None,
    ensures
        validate::card_fault(devices, i) is Some ==> validate::cards_fault(devices)
            == validate::card_fault(devices, i),
        devices[i].members@.len() == 0 ==> validate::card_fault(devices, i) is None,
        devices[i].members@.len() > 0 && devices[i].kind != Kind::Light ==> validate::card_fault(
            devices,
            i,
        ) == Some(Fault::ForbiddenField { device: devices[i].name@, field: "members"@ }),
        devices[i].kind == Kind::Light && 0 <= k < devices[i].members@.len() && (forall|j: int|
            0 <= j < k ==> (#[trigger] validate::light_member_fault(devices, i, j)) is None)
            && validate::light_member_fault(devices, i, k) is Some ==> validate::card_fault(
            devices,
            i,
        ) == validate::light_member_fault(devices, i, k),
{
    let at = |j: int| validate::card_fault(devices, j);
    if validate::card_fault(devices, i) is Some {
        assert forall|j: int| 0 <= j < i implies (#[trigger] at(j)) is None by {
            assert(validate::card_fault(devices, j) is None);
        }
        lemma_first(devices.len(), at, i);
    }
    let inner = |j: int| validate::light_member_fault(devices, i, j);
    if devices[i].kind == Kind::Light && 0 <= k < devices[i].members@.len() && (forall|j: int|
        0 <= j < k ==> (#[trigger] validate::light_member_fault(devices, i, j)) is None)
        && validate::light_member_fault(devices, i, k) is Some {
        assert forall|j: int| 0 <= j < k implies (#[trigger] inner(j)) is None by {
            assert(validate::light_member_fault(devices, i, j) is None);
        }
        lemma_first(devices[i].members@.len(), inner, k);
    }
}

/// What is reported of a member of a card: that no device has the name, else
/// that the device is no light, else that it has members itself, else that it
/// was listed before.
pub proof fn lemma_card_member_in_turn(devices: Seq<Device>, i: int, k: int, m: int)
    requires
        0 <= i < devices.len(),
        0 <= k < devices[i].members@.len(),
    ensures
        ({
            let card = devices[i].name@;
            let name = devices[i].members@[k]@;
            let f = validate::light_member_fault(devices, i, k);
            &&& crate::control_laws::nobody_is(devices, name) ==> f == Some(
                Fault::UnknownLightMember { device: card, member: name },
            )
            &&& crate::control_laws::goes_by(devices, m, name) ==> if devices[m].kind
                != Kind::Light {
                f == Some(Fault::NonLightMember { device: card, member: name })
            } else if devices[m].members@.len() > 0 {
                f == Some(Fault::NestedLightMembers { device: card, member: name })
            } else if carded_before(devices, i, k) {
                f == Some(Fault::DuplicateLightMember { member: name })
            } else {
                f is None
            }
        }),
{
    crate::control_laws::lemma_found(devices, m, devices[i].members@[k]@);
    lemma_carded_before(devices, i, k);
}

/// What is reported of a group: that an earlier one has its name, else that it
/// has no members, else the first of its members that is not allowed. A member
/// is reported because no device has the name, else because the device is no
/// shutter, else because it was listed before.
pub proof fn lemma_group_in_turn(
    devices: Seq<Device>,
    groups: Seq<Group>,
    i: int,
    k: int,
    m: int,
)
    requires
        0 <= i < groups.len(),
        0 <= k < groups[i].members@.len(),
    ensures
        ({
            let group = groups[i].name@;
            let name = groups[i].members@[k]@;
            let f = validate::group_member_fault(devices, groups, i, k);
            &&& crate::control_laws::nobody_is(devices, name) ==> f == Some(
                Fault::UnknownMember { group, member: name },
            )
            &&& crate::control_laws::goes_by(devices, m, name) ==> if devices[m].kind
                != Kind::Shutter {
                f == Some(Fault::NonShutterInGroup { group, member: name })
            } else if grouped_before(groups, i, k) {
                f == Some(Fault::DuplicateGroupMember { device: name })
            } else {
                f is None
            }
            &&& (exists|j: int| 0 <= j < i && (#[trigger] groups[j]).name@ == group)
                ==> validate::group_fault(devices, groups, i) == Some(Fault::DuplicateGroup(group))
            &&& (forall|j: int| 0 <= j < i ==> (#[trigger] groups[j]).name@ != group) && (forall|
                j: int,
            |
                0 <= j < k ==> (#[trigger] validate::group_member_fault(
                    devices,
                    groups,
                    i,
                    j,
                )) is None) && f is Some ==> validate::group_fault(devices, groups, i) == f
        }),
{
    crate::control_laws::lemma_found(devices, m, groups[i].members@[k]@);
    lemma_grouped_before(groups, i, k);
    let group = groups[i].name@;
    if exists|j: int| 0 <= j < i && (#[trigger] groups[j]).name@ == group {
        let j = choose|j: int| 0 <= j < i && (#[trigger] groups[j]).name@ == group;
        assert(groups[j].name@ == group);
    }
    if (forall|j: int| 0 <= j < i ==> (#[trigger] groups[j]).name@ != group) && (forall|j: int|
        0 <= j < k ==> (#[trigger] validate::group_member_fault(devices, groups, i, j)) is None)
        && validate::group_member_fault(devices, groups, i, k) is Some {
        let at = |j: int| validate::group_member_fault(devices, groups, i, j);
        assert forall|j: int| 0 <= j < k implies (#[trigger] at(j)) is None by {
            assert(validate::group_member_fault(devices, groups, i, j) is None);
        }
        lemma_first(groups[i].members@.len(), at, k);
        assert(!(exists|j: int| 0 <= j < i && #[trigger] groups[j].name@ == group));
    }
}

/// What is reported of a graph: that an earlier one has its name, else that
/// its query is empty, else that the query does not hold its placeholder once.
pub proof fn lemma_graph_in_turn(graphs: Seq<Graph>, i: int)
    requires
        0 <= i < graphs.len(),
    ensures
        ({
            let g = graphs[i];
            let f = validate::graph_fault(graphs, i);
            if exists|j: int| 0 <= j < i && (#[trigger] graphs[j]).name@ == g.name@ {
                f == Some(Fault::DuplicateGraph(g.name@))
            } else if g.query@.len() == 0 {
                f == Some(Fault::EmptyGraphQuery(g.name@))
            } else if !one_holder(g.query@, "{period}"@) {
                f matches Some(Fault::PeriodPlaceholder { graph, .. }) && graph == g.name@
            } else {
                f is None
            }
        }),
{
    let g = graphs[i];
    lemma_used_once(g.query@, "{period}"@);
    if exists|j: int| 0 <= j < i && (#[trigger] graphs[j]).name@ == g.name@ {
        let j = choose|j: int| 0 <= j < i && (#[trigger] graphs[j]).name@ == g.name@;
        assert(graphs[j].name@ == g.name@);
    } else {
        assert(!(exists|j: int| 0 <= j < i && #[trigger] graphs[j].name@ == g.name@));
    }
}

/// Where devices, groups and graphs keep the rules, an empty command is
/// reported: that of the report on health first, then that of the
/// subscription, then that of the mesh.
pub proof fn lemma_commands_in_turn(a: Config, c: Config)
    requires
        a.devices@ == c.devices@,
        a.groups@ == c.groups@,
        a.graphs@ == c.graphs@,
        a.health is None && a.push is None && a.mesh is None,
        a.fault() is None,
    ensures
        if c.health matches Some(h) && h.command@.len() == 0 {
            c.fault() == Some(Fault::EmptyHealthCommand)
        } else if c.push matches Some(p) && p.listen@.len() == 0 {
            c.fault() == Some(Fault::EmptyPushListen)
        } else if c.mesh matches Some(m) && m.command@.len() == 0 {
            c.fault() == Some(Fault::EmptyMeshCommand)
        } else {
            c.fault() is None
        },
{
}

/// A command that is needed is missing where it is not given and empty where
/// it has no word; a field that is barred is refused exactly where it is
/// given.
pub proof fn lemma_needs_and_bars(device: Seq<char>, field: Seq<char>, cmd: Option<Vec<String>>)
    ensures
        cmd is None ==> validate::needs(device, field, cmd) == Some(
            Fault::MissingCommand { device, field },
        ),
        hollow(cmd) ==> validate::needs(device, field, cmd) == Some(Fault::EmptyCommand(device)),
        ready(cmd) ==> validate::needs(device, field, cmd) is None,
        validate::bars(device, field, true) == Some(Fault::ForbiddenField { device, field }),
        validate::bars(device, field, false) is None,
{
}

/// Each fault has its own words.
pub proof fn lemma_words(a: Seq<char>, b: Seq<char>, count: usize)
    ensures
        Fault::Read(a).words() == "config 読み込み失敗: "@ + a,
        Fault::Parse(a).words() == "config パース失敗: "@ + a,
        Fault::Empty.words() == "config に [[device]] が 1 つもない"@,
        Fault::DuplicateName(a).words() == "device 名が重複: "@ + a,
        Fault::EmptyCommand(a).words() == "device "@ + a + ": コマンド配列が空"@,
        Fault::EmptyGroup(a).words() == "group "@ + a + ": members が空"@,
        (Fault::UnknownMember { group: a, member: b }).words()
            == "group "@ + a + ": 未知の device を参照: "@ + b,
        Fault::DuplicateGroup(a).words() == "group 名が重複: "@ + a,
        (Fault::MissingCommand { device: a, field: b }).words()
            == "device "@ + a + ": "@ + b + " がない（この kind では必須）"@,
        (Fault::ForbiddenField { device: a, field: b }).words()
            == "device "@ + a + ": "@ + b + " はこの kind では指定できない"@,
        (Fault::DuplicatePreset { device: a, preset: b }).words()
            == "device "@ + a + ": preset 名が重複: "@ + b,
        (Fault::NonShutterInGroup { group: a, member: b }).words()
            == "group "@ + a + ": シャッター以外はグループに入れられない: "@ + b,
        (Fault::DuplicateGroupMember { device: a }).words()
            == "device "@ + a + ": 複数のグループに所属できない（UI が個別行をデバイスごとに 1 つしか持てないため）"@,
        (Fault::ColorPlaceholder { device: a, count }).words()
            == "device "@ + a + ": color テンプレは {color} プレースホルダをちょうど 1 個含む必要がある（現在 "@ + text::decimal(count as nat) + " 個）"@,
        (Fault::BrightnessPlaceholder { device: a, count }).words()
            == "device "@ + a + ": brightness テンプレは {brightness} プレースホルダをちょうど 1 個含む必要がある（現在 "@ + text::decimal(count as nat) + " 個）"@,
        Fault::DuplicateGraph(a).words() == "graph 名が重複: "@ + a,
        Fault::EmptyGraphQuery(a).words() == "graph "@ + a + ": query が空"@,
        (Fault::PeriodPlaceholder { graph: a, count }).words()
            == "graph "@ + a + ": query は {period} プレースホルダをちょうど 1 個含む必要がある（現在 "@ + text::decimal(count as nat) + " 個）"@,
        (Fault::UnknownLightMember { device: a, member: b }).words()
            == "device "@ + a + ": members が未知の device を参照: "@ + b,
        (Fault::NonLightMember { device: a, member: b }).words()
            == "device "@ + a + ": members に light 以外は入れられない: "@ + b,
        (Fault::NestedLightMembers { device: a, member: b }).words()
            == "device "@ + a + ": member "@ + b + " は自身が members を持つため入れ子にできない"@,
        (Fault::DuplicateLightMember { member: a }).words()
            == "device "@ + a + ": members に複数回指定されている（同一グループ内の重複または複数グループへの所属）"@,
        Fault::EmptyHealthCommand.words() == "health: command が空"@,
        Fault::EmptyPushListen.words() == "push: listen が空"@,
        Fault::EmptyMeshCommand.words() == "mesh: command が空"@,
{
}

/// The text stands somewhere in the words.
pub open spec fn mentions(words: Seq<char>, name: Seq<char>) -> bool {
    exists|before: Seq<char>, after: Seq<char>| words == #[trigger] (before + name + after)
}

proof fn lemma_mentions(before: Seq<char>, name: Seq<char>, after: Seq<char>, words: Seq<char>)
    requires
        words =~= before + name + after,
    ensures
        mentions(words, name),
{
    assert(words == before + name + after);
}

/// A fault in words mentions what it is about: the names, the field and the
/// number.
pub proof fn lemma_words_mention(f: Fault)
    ensures
        match f {
            Fault::Read(e) | Fault::Parse(e) => mentions(f.words(), e),
            Fault::DuplicateName(n) | Fault::EmptyCommand(n) | Fault::EmptyGroup(n)
                | Fault::DuplicateGroup(n) | Fault::DuplicateGraph(n)
                | Fault::EmptyGraphQuery(n) => mentions(f.words(), n),
            Fault::UnknownMember { group, member } | Fault::NonShutterInGroup { group, member } =>
            mentions(f.words(), group) && mentions(f.words(), member),
            Fault::MissingCommand { device, field } | Fault::ForbiddenField { device, field } =>
            mentions(f.words(), device) && mentions(f.words(), field),
            Fault::DuplicatePreset { device, preset } => mentions(f.words(), device) && mentions(
                f.words(),
                preset,
            ),
            Fault::DuplicateGroupMember { device } => mentions(f.words(), device),
            Fault::ColorPlaceholder { device, count }
                | Fault::BrightnessPlaceholder { device, count } => mentions(f.words(), device)
                && mentions(f.words(), text::decimal(count as nat)),
            Fault::PeriodPlaceholder { graph, count } => mentions(f.words(), graph) && mentions(
                f.words(),
                text::decimal(count as nat),
            ),
            Fault::UnknownLightMember { device, member } | Fault::NonLightMember { device, member }
                | Fault::NestedLightMembers { device, member } => mentions(f.words(), device)
                && mentions(f.words(), member),
            Fault::DuplicateLightMember { member } => mentions(f.words(), member),
            _ => true,
        },
{
    match f {
        Fault::Read(e) => {
            lemma_mentions(
                "config 読み込み失敗: "@,
                e,
                Seq::<char>::empty(),
                f.words(),
            );
        },
        Fault::Parse(e) => {
            lemma_mentions(
                "config パース失敗: "@,
                e,
                Seq::<char>::empty(),
                f.words(),
            );
        },
        Fault::DuplicateName(n) => {
            lemma_mentions(
                "device 名が重複: "@,
                n,
                Seq::<char>::empty(),
                f.words(),
            );
        },
        Fault::EmptyCommand(n) => {
            lemma_mentions(
                "device "@,
                n,
                ": コマンド配列が空"@,
                f.words(),
            );
        },
        Fault::EmptyGroup(n) => {
            lemma_mentions(
                "group "@,
                n,
                ": members が空"@,
                f.words(),
            );
        },
        Fault::UnknownMember { group, member } => {
            lemma_mentions(
                "group "@,
                group,
                ": 未知の device を参照: "@ + member,
                f.words(),
            );
            lemma_mentions(
                "group "@ + group + ": 未知の device を参照: "@,
                member,
                Seq::<char>::empty(),
                f.words(),
            );
        },
        Fault::DuplicateGroup(n) => {
            lemma_mentions(
                "group 名が重複: "@,
                n,
                Seq::<char>::empty(),
                f.words(),
            );
        },
        Fault::MissingCommand { device, field } => {
            lemma_mentions(
                "device "@,
                device,
                ": "@ + field + " がない（この kind では必須）"@,
                f.words(),
            );
            lemma_mentions(
                "device "@ + device + ": "@,
                field,
                " がない（この kind では必須）"@,
                f.words(),
            );
        },
        Fault::ForbiddenField { device, field } => {
            lemma_mentions(
                "device "@,
                device,
                ": "@ + field + " はこの kind では指定できない"@,
                f.words(),
            );
            lemma_mentions(
                "device "@ + device + ": "@,
                field,
                " はこの kind では指定できない"@,
                f.words(),
            );
        },
        Fault::DuplicatePreset { device, preset } => {
            lemma_mentions(
                "device "@,
                device,
                ": preset 名が重複: "@ + preset,
                f.words(),
            );
            lemma_mentions(
                "device "@ + device + ": preset 名が重複: "@,
                preset,
                Seq::<char>::empty(),
                f.words(),
            );
        },
        Fault::NonShutterInGroup { group, member } => {
            lemma_mentions(
                "group "@,
                group,
                ": シャッター以外はグループに入れられない: "@ + member,
                f.words(),
            );
            lemma_mentions(
                "group "@ + group + ": シャッター以外はグループに入れられない: "@,
                member,
                Seq::<char>::empty(),
                f.words(),
            );
        },
        Fault::DuplicateGroupMember { device } => {
            lemma_mentions(
                "device "@,
                device,
                ": 複数のグループに所属できない（UI が個別行をデバイスごとに 1 つしか持てないため）"@,
                f.words(),
            );
        },
        Fault::ColorPlaceholder { device, count } => {
            lemma_mentions(
                "device "@,
                device,
                ": color テンプレは {color} プレースホルダをちょうど 1 個含む必要がある（現在 "@ + text::decimal(count as nat) + " 個）"@,
                f.words(),
            );
            lemma_mentions(
                "device "@ + device + ": color テンプレは {color} プレースホルダをちょうど 1 個含む必要がある（現在 "@,
                text::decimal(count as nat),
                " 個）"@,
                f.words(),
            );
        },
        Fault::BrightnessPlaceholder { device, count } => {
            lemma_mentions(
                "device "@,
                device,
                ": brightness テンプレは {brightness} プレースホルダをちょうど 1 個含む必要がある（現在 "@ + text::decimal(count as nat) + " 個）"@,
                f.words(),
            );
            lemma_mentions(
                "device "@ + device + ": brightness テンプレは {brightness} プレースホルダをちょうど 1 個含む必要がある（現在 "@,
                text::decimal(count as nat),
                " 個）"@,
                f.words(),
            );
        },
        Fault::DuplicateGraph(n) => {
            lemma_mentions(
                "graph 名が重複: "@,
                n,
                Seq::<char>::empty(),
                f.words(),
            );
        },
        Fault::EmptyGraphQuery(n) => {
            lemma_mentions(
                "graph "@,
                n,
                ": query が空"@,
                f.words(),
            );
        },
        Fault::PeriodPlaceholder { graph, count } => {
            lemma_mentions(
                "graph "@,
                graph,
                ": query は {period} プレースホルダをちょうど 1 個含む必要がある（現在 "@ + text::decimal(count as nat) + " 個）"@,
                f.words(),
            );
            lemma_mentions(
                "graph "@ + graph + ": query は {period} プレースホルダをちょうど 1 個含む必要がある（現在 "@,
                text::decimal(count as nat),
                " 個）"@,
                f.words(),
            );
        },
        Fault::UnknownLightMember { device, member } => {
            lemma_mentions(
                "device "@,
                device,
                ": members が未知の device を参照: "@ + member,
                f.words(),
            );
            lemma_mentions(
                "device "@ + device + ": members が未知の device を参照: "@,
                member,
                Seq::<char>::empty(),
                f.words(),
            );
        },
        Fault::NonLightMember { device, member } => {
            lemma_mentions(
                "device "@,
                device,
                ": members に light 以外は入れられない: "@ + member,
                f.words(),
            );
            lemma_mentions(
                "device "@ + device + ": members に light 以外は入れられない: "@,
                member,
                Seq::<char>::empty(),
                f.words(),
            );
        },
        Fault::NestedLightMembers { device, member } => {
            lemma_mentions(
                "device "@,
                device,
                ": member "@ + member + " は自身が members を持つため入れ子にできない"@,
                f.words(),
            );
            lemma_mentions(
                "device "@ + device + ": member "@,
                member,
                " は自身が members を持つため入れ子にできない"@,
                f.words(),
            );
        },
        Fault::DuplicateLightMember { member } => {
            lemma_mentions(
                "device "@,
                member,
                ": members に複数回指定されている（同一グループ内の重複または複数グループへの所属）"@,
                f.words(),
            );
        },
        _ => {},
    }
}

} // verus!
