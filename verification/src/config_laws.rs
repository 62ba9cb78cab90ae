//! What is found in a configuration, and what stands for what is not given.

use vstd::prelude::*;

use crate::config;
use crate::config::{Device, Graph, Group, Kind, Preset};

verus! {

/// The device found under a name has it and is the first that has; none is
/// found only where none has it.
pub proof fn lemma_find_device(devices: Seq<Device>, name: Seq<char>)
    ensures
        match config::find_device(devices, name) {
            Some(d) => exists|i: int|
                0 <= i < devices.len() && #[trigger] devices[i] == d && d.name@ == name && forall|
                    j: int,
                |
                    0 <= j < i ==> (#[trigger] devices[j]).name@ != name,
            None => forall|i: int|
                0 <= i < devices.len() ==> (#[trigger] devices[i]).name@ != name,
        },
    decreases devices.len(),
{
    if devices.len() > 0 {
        let rest = devices.drop_first();
        lemma_find_device(rest, name);
        assert(devices[0] == devices.first());
        if devices[0].name@ != name {
            match config::find_device(rest, name) {
                Some(d) => {
                    let i = choose|i: int|
                        0 <= i < rest.len() && #[trigger] rest[i] == d && d.name@ == name
                            && forall|j: int| 0 <= j < i ==> (#[trigger] rest[j]).name@ != name;
                    assert(devices[i + 1] == d);
                    assert forall|j: int| 0 <= j < i + 1 implies (#[trigger] devices[j]).name@
                        != name by {
                        if j > 0 {
                            assert(rest[j - 1] == devices[j]);
                        }
                    }
                },
                None => {
                    assert forall|j: int| 0 <= j < devices.len() implies (
                    #[trigger] devices[j]).name@ != name by {
                        if j > 0 {
                            assert(rest[j - 1] == devices[j]);
                        }
                    }
                },
            }
        }
    }
}

/// The group found under a name has it and is the first that has; none is
/// found only where none has it.
pub proof fn lemma_find_group(groups: Seq<Group>, name: Seq<char>)
    ensures
        match config::find_group(groups, name) {
            Some(d) => exists|i: int|
                0 <= i < groups.len() && #[trigger] groups[i] == d && d.name@ == name && forall|
                    j: int,
                |
                    0 <= j < i ==> (#[trigger] groups[j]).name@ != name,
            None => forall|i: int| 0 <= i < groups.len() ==> (#[trigger] groups[i]).name@ != name,
        },
    decreases groups.len(),
{
    if groups.len() > 0 {
        let rest = groups.drop_first();
        lemma_find_group(rest, name);
        assert(groups[0] == groups.first());
        if groups[0].name@ != name {
            match config::find_group(rest, name) {
                Some(d) => {
                    let i = choose|i: int|
                        0 <= i < rest.len() && #[trigger] rest[i] == d && d.name@ == name
                            && forall|j: int| 0 <= j < i ==> (#[trigger] rest[j]).name@ != name;
                    assert(groups[i + 1] == d);
                    assert forall|j: int| 0 <= j < i + 1 implies (#[trigger] groups[j]).name@
                        != name by {
                        if j > 0 {
                            assert(rest[j - 1] == groups[j]);
                        }
                    }
                },
                None => {
                    assert forall|j: int| 0 <= j < groups.len() implies (
                    #[trigger] groups[j]).name@ != name by {
                        if j > 0 {
                            assert(rest[j - 1] == groups[j]);
                        }
                    }
                },
            }
        }
    }
}

/// The graph found under a name has it and is the first that has; none is
/// found only where none has it.
pub proof fn lemma_find_graph(graphs: Seq<Graph>, name: Seq<char>)
    ensures
        match config::find_graph(graphs, name) {
            Some(d) => exists|i: int|
                0 <= i < graphs.len() && #[trigger] graphs[i] == d && d.name@ == name && forall|
                    j: int,
                |
                    0 <= j < i ==> (#[trigger] graphs[j]).name@ != name,
            None => forall|i: int| 0 <= i < graphs.len() ==> (#[trigger] graphs[i]).name@ != name,
        },
    decreases graphs.len(),
{
    if graphs.len() > 0 {
        let rest = graphs.drop_first();
        lemma_find_graph(rest, name);
        assert(graphs[0] == graphs.first());
        if graphs[0].name@ != name {
            match config::find_graph(rest, name) {
                Some(d) => {
                    let i = choose|i: int|
                        0 <= i < rest.len() && #[trigger] rest[i] == d && d.name@ == name
                            && forall|j: int| 0 <= j < i ==> (#[trigger] rest[j]).name@ != name;
                    assert(graphs[i + 1] == d);
                    assert forall|j: int| 0 <= j < i + 1 implies (#[trigger] graphs[j]).name@
                        != name by {
                        if j > 0 {
                            assert(rest[j - 1] == graphs[j]);
                        }
                    }
                },
                None => {
                    assert forall|j: int| 0 <= j < graphs.len() implies (
                    #[trigger] graphs[j]).name@ != name by {
                        if j > 0 {
                            assert(rest[j - 1] == graphs[j]);
                        }
                    }
                },
            }
        }
    }
}

/// The preset found under a name has it and is the first that has; none is
/// found only where none has it.
pub proof fn lemma_find_preset(presets: Seq<Preset>, name: Seq<char>)
    ensures
        match config::find_preset(presets, name) {
            Some(d) => exists|i: int|
                0 <= i < presets.len() && #[trigger] presets[i] == d && d.name@ == name && forall|
                    j: int,
                |
                    0 <= j < i ==> (#[trigger] presets[j]).name@ != name,
            None => forall|i: int|
                0 <= i < presets.len() ==> (#[trigger] presets[i]).name@ != name,
        },
    decreases presets.len(),
{
    if presets.len() > 0 {
        let rest = presets.drop_first();
        lemma_find_preset(rest, name);
        assert(presets[0] == presets.first());
        if presets[0].name@ != name {
            match config::find_preset(rest, name) {
                Some(d) => {
                    let i = choose|i: int|
                        0 <= i < rest.len() && #[trigger] rest[i] == d && d.name@ == name
                            && forall|j: int| 0 <= j < i ==> (#[trigger] rest[j]).name@ != name;
                    assert(presets[i + 1] == d);
                    assert forall|j: int| 0 <= j < i + 1 implies (#[trigger] presets[j]).name@
                        != name by {
                        if j > 0 {
                            assert(rest[j - 1] == presets[j]);
                        }
                    }
                },
                None => {
                    assert forall|j: int| 0 <= j < presets.len() implies (
                    #[trigger] presets[j]).name@ != name by {
                        if j > 0 {
                            assert(rest[j - 1] == presets[j]);
                        }
                    }
                },
            }
        }
    }
}

/// The command of a preset is that of the first preset of the name, and there
/// is none only where no preset has the name.
pub proof fn lemma_preset_line(d: Device, k: int, name: Seq<char>)
    ensures
        0 <= k < d.presets@.len() && d.presets@[k].name@ == name && (forall|j: int|
            0 <= j < k ==> (#[trigger] d.presets@[j]).name@ != name) ==> d.preset_line(name)
            == Some(d.presets@[k].cmd@),
        d.preset_line(name) is None <==> forall|j: int|
            0 <= j < d.presets@.len() ==> (#[trigger] d.presets@[j]).name@ != name,
{
    lemma_find_preset(d.presets@, name);
    if let Some(p) = config::find_preset(d.presets@, name) {
        let i = choose|i: int|
            0 <= i < d.presets@.len() && #[trigger] d.presets@[i] == p && p.name@ == name
                && forall|j: int| 0 <= j < i ==> (#[trigger] d.presets@[j]).name@ != name;
        if 0 <= k < d.presets@.len() && d.presets@[k].name@ == name && (forall|j: int|
            0 <= j < k ==> (#[trigger] d.presets@[j]).name@ != name) {
            if i < k {
                assert(d.presets@[i].name@ == name);
            } else if k < i {
                assert(d.presets@[k].name@ == name);
            }
        }
    }
}

/// What is given is used, and what stands for it is used only where it is not
/// given; a command line has the words that it is given with.
pub proof fn lemma_given_or_not(label: String, name: String, cmd: Vec<String>)
    ensures
        config::either(Some(label), name) == label@,
        config::either(None, name) == name@,
        config::line(Some(cmd)) == Some(cmd@),
        config::line(None) is None,
{
}

/// The view of today has the unit of the graph; the others have the unit by
/// day where one is given, and that of the graph where none is.
pub proof fn lemma_units(g: Graph, period: Seq<char>)
    ensures
        period == "today"@ ==> g.unit_in(period) == g.unit@,
        period != "today"@ && g.unit_daily is None ==> g.unit_in(period) == g.unit@,
        period != "today"@ ==> (g.unit_daily matches Some(u) ==> g.unit_in(period) == u@),
        g.unit_daily is None ==> g.daily_unit() == g.unit@,
        g.unit_daily matches Some(u) ==> g.daily_unit() == u@,
{
}

/// A device is named exactly where it is a light without a node, each as often
/// as there is such a device of that name, in the order of the configuration.
pub proof fn lemma_without_node(devices: Seq<Device>)
    ensures
        config::without_node(devices) == devices.filter(
            |d: Device| d.kind == Kind::Light && d.node_id is None,
        ).map_values(|d: Device| d.name@),
    decreases devices.len(),
{
    let pred = |d: Device| d.kind == Kind::Light && d.node_id is None;
    let name = |d: Device| d.name@;
    reveal(Seq::filter);
    if devices.len() > 0 {
        let front = devices.drop_last();
        let last = devices.last();
        lemma_without_node(front);
        assert(devices =~= front.push(last));
        front.lemma_filter_push(last, pred);
        assert(config::without_node(front) == front.filter(pred).map_values(name));
        if pred(last) {
            assert(front.filter(pred).push(last).map_values(name) =~= front.filter(
                pred,
            ).map_values(name).push(name(last)));
            assert(config::without_node(front) + seq![last.name@] =~= config::without_node(
                front,
            ).push(last.name@));
        }
        assert(devices.filter(pred).map_values(name) =~= config::without_node(devices));
    } else {
        assert(devices.filter(pred).map_values(name) =~= config::without_node(devices));
    }
}

} // verus!
