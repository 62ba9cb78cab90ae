//! Operating the devices of a group, one after the other.

use vstd::prelude::*;

use crate::config;
use crate::config::{Config, Device, Group};
use crate::control;
use crate::control::Op;
use crate::reply;
use crate::reply::Reply;
use crate::status::{ActionView, StateView};
use crate::subprocess::ExecOutcome;

verus! {

/// What is done with one member of a group.
#[derive(Debug)]
pub struct GroupStep<'a> {
    pub device: &'a Device,
    /// The command to run; without one the member is skipped, and only its
    /// state is read.
    pub cmd: Option<Vec<String>>,
}

/// What a request to operate a group comes to.
#[derive(Debug)]
pub enum GroupPlan<'a> {
    /// It is refused.
    Refuse(Reply),
    /// The members are operated in this order.
    Steps(Vec<GroupStep<'a>>),
}

/// The members of a group are devices.
pub open spec fn members_found(devices: Seq<Device>, g: Group) -> bool {
    forall|k: int|
        0 <= k < g.members@.len() ==> config::find_device(
            devices,
            (#[trigger] g.members@[k])@,
        ) is Some
}

/// Where there is a group of that name, its members are devices.
pub open spec fn group_is_complete(c: Config, name: Seq<char>) -> bool {
    config::find_group(c.groups@, name) matches Some(g) ==> members_found(c.devices@, g)
}

/// The step operates the device of that name.
pub open spec fn steps_on(
    devices: Seq<Device>,
    member: Seq<char>,
    op: Op,
    step: GroupStep<'_>,
) -> bool {
    config::find_device(devices, member) == Some(*step.device) && config::line(step.cmd)
        == control::op_line(*step.device, op)
}

/// What an operation on a group comes to: each member, in the order of the
/// configuration, with its command for the operation where it has one.
pub open spec fn plans_group(c: Config, name: Seq<char>, op: Op, plan: GroupPlan<'_>) -> bool {
    match config::find_group(c.groups@, name) {
        None => plan matches GroupPlan::Refuse(r) && reply::says_unknown_group(r, name),
        Some(g) => plan matches GroupPlan::Steps(steps) && steps@.len() == g.members@.len()
            && forall|k: int|
            0 <= k < steps@.len() ==> steps_on(
                c.devices@,
                g.members@[k]@,
                op,
                #[trigger] steps@[k],
            ),
    }
}

/// Whether the members of the group of that name, where there is one, are
/// devices.
pub fn is_group_complete(config: &Config, name: &str) -> (r: bool)
    ensures
        r == group_is_complete(*config, name@),
{
    let group = match config.find_group(name) {
        Some(group) => group,
        None => return true,
    };
    let mut i: usize = 0;
    while i < group.members.len()
        invariant
            i <= group.members.len(),
            config::find_group(config.groups@, name@) == Some(*group),
            forall|k: int|
                0 <= k < i ==> config::find_device(
                    config.devices@,
                    (#[trigger] group.members@[k])@,
                ) is Some,
        decreases group.members.len() - i,
    {
        if config.find(group.members[i].as_str()).is_none() {
            assert(config::find_device(config.devices@, group.members@[i as int]@) is None);
            return false;
        }
        i += 1;
    }
    true
}

/// What an operation on a group comes to.
pub fn group_op<'a>(config: &'a Config, name: &str, op: Op) -> (plan: GroupPlan<'a>)
    requires
        group_is_complete(*config, name@),
    ensures
        plans_group(*config, name@, op, plan),
{
    let group = match config.find_group(name) {
        Some(group) => group,
        None => return GroupPlan::Refuse(reply::unknown_group(name)),
    };
    let mut steps: Vec<GroupStep<'a>> = Vec::new();
    let mut i: usize = 0;
    while i < group.members.len()
        invariant
            i <= group.members.len(),
            members_found(config.devices@, *group),
            steps@.len() == i,
            forall|k: int|
                0 <= k < i ==> steps_on(
                    config.devices@,
                    group.members@[k]@,
                    op,
                    #[trigger] steps@[k],
                ),
        decreases group.members.len() - i,
    {
        assert(config::find_device(config.devices@, group.members@[i as int]@) is Some);
        if let Some(device) = config.find(group.members[i].as_str()) {
            let cmd = control::device_cmd(device, op);
            steps.push(GroupStep { device, cmd });
        }
        i += 1;
    }
    GroupPlan::Steps(steps)
}

/// What became of one member of a group.
#[derive(Debug)]
pub struct GroupMemberResult {
    pub name: String,
    /// Whether the member does not do the operation and was skipped.
    pub skipped: bool,
    pub result: ActionView,
}

/// What became of one member of a group: `action` is how its command ended,
/// where it had one. A member that was skipped counts as a success.
pub fn group_member_result(device: &Device, action: Option<ExecOutcome>, state: StateView) -> (r:
    GroupMemberResult)
    ensures
        r.name@ == device.name@,
        r.skipped == action is None,
        r.result.action == match action {
            Some(outcome) => outcome,
            None => ExecOutcome::Success,
        },
        r.result.state == state,
{
    GroupMemberResult {
        name: device.name.clone(),
        skipped: action.is_none(),
        result: ActionView {
            action: match action {
                Some(outcome) => outcome,
                None => ExecOutcome::Success,
            },
            state,
        },
    }
}

/// The group found under a name is one of the groups.
proof fn lemma_find_group(groups: Seq<Group>, name: Seq<char>)
    ensures
        config::find_group(groups, name) matches Some(g) ==> exists|i: int|
            0 <= i < groups.len() && groups[i] == g,
    decreases groups.len(),
{
    if groups.len() > 0 {
        if groups.first().name@ == name {
            assert(groups[0] == groups.first());
        } else {
            lemma_find_group(groups.drop_first(), name);
            if let Some(g) = config::find_group(groups.drop_first(), name) {
                let i = choose|i: int|
                    0 <= i < groups.drop_first().len() && groups.drop_first()[i] == g;
                assert(groups[i + 1] == g);
            }
        }
    }
}

/// In a configuration that keeps the rules every group is complete.
pub proof fn lemma_valid_group_is_complete(c: Config, name: Seq<char>)
    requires
        c.fault() is None,
    ensures
        group_is_complete(c, name),
{
    crate::validate::lemma_valid_groups(c);
    lemma_find_group(c.groups@, name);
    if let Some(g) = config::find_group(c.groups@, name) {
        let i = choose|i: int| 0 <= i < c.groups@.len() && c.groups@[i] == g;
        assert forall|k: int| 0 <= k < g.members@.len() implies config::find_device(
            c.devices@,
            (#[trigger] g.members@[k])@,
        ) is Some by {
            assert(c.groups@[i].members@[k] == g.members@[k]);
        }
    }
}

/// In a configuration that keeps the rules, opening or closing a group skips
/// no member, and every command that is run has a first word.
pub proof fn lemma_open_and_close_skip_nobody(
    c: Config,
    name: Seq<char>,
    op: Op,
    plan: GroupPlan<'_>,
)
    requires
        c.fault() is None,
        op == Op::Open || op == Op::Close,
        plans_group(c, name, op, plan),
    ensures
        plan matches GroupPlan::Steps(steps) ==> forall|k: int|
            0 <= k < steps@.len() ==> ((#[trigger] steps@[k]).cmd matches Some(cmd) && cmd@.len()
                > 0),
{
    crate::validate::lemma_valid_groups(c);
    lemma_find_group(c.groups@, name);
    if let Some(g) = config::find_group(c.groups@, name) {
        let i = choose|i: int| 0 <= i < c.groups@.len() && c.groups@[i] == g;
        if let GroupPlan::Steps(steps) = plan {
            assert forall|k: int| 0 <= k < steps@.len() implies ((#[trigger] steps@[k]).cmd
                matches Some(cmd) && cmd@.len() > 0) by {
                assert(steps_on(c.devices@, g.members@[k]@, op, steps@[k]));
                assert(c.groups@[i].members@[k] == g.members@[k]);
                crate::validate::lemma_find_device(c.devices@, g.members@[k]@);
                crate::validate::lemma_valid_commands(c, *steps@[k].device);
            }
        }
    }
}

} // verus!
