//! What commands, their results and the listener come to, event by event.

use vstd::prelude::*;

use crate::cache;
use crate::cache::Cached;
use crate::config::Mesh;
use crate::json::JsonView;
use crate::listener;
use crate::listener::{Backoff, Happening, Phase, Task};
use crate::mesh;
use crate::mesh_job;
use crate::mesh_job::{MeshJob, Reading};
use crate::push::{Ingested, PushModel};
use crate::subprocess;
use crate::subprocess::ExecOutcome;
use crate::text;

verus! {

/// Each outcome has its own exit code; every other code, and none, is a
/// failure. No exit is taken for a command that was not started.
pub proof fn lemma_exit_codes(code: Option<i32>)
    ensures
        subprocess::outcome_of(code) == ExecOutcome::Success <==> code == Some(0i32),
        subprocess::outcome_of(code) == ExecOutcome::Timeout <==> code == Some(3i32),
        subprocess::outcome_of(code) == ExecOutcome::Rejected <==> code == Some(4i32),
        subprocess::outcome_of(code) == ExecOutcome::NetworkError <==> code == Some(5i32),
        subprocess::outcome_of(code) != ExecOutcome::SpawnFailed,
{
}

/// A lane that was used before is not added again; a new one is added at the
/// end.
pub proof fn lemma_lane_is_added_once(lanes: Seq<Seq<char>>, name: Seq<char>)
    ensures
        (exists|i: int| 0 <= i < lanes.len() && lanes[i] == name) ==> subprocess::with_lane(
            lanes,
            name,
        ) == lanes,
        (forall|i: int| 0 <= i < lanes.len() ==> lanes[i] != name) ==> subprocess::with_lane(
            lanes,
            name,
        ) == lanes.push(name),
{
}

/// A value that is there is used exactly where its age is below the limit or
/// it was put in since the read arrived; a value put in after `now` has no age.
pub proof fn lemma_lookup<T>(
    slots: Map<Seq<char>, Cached<T>>,
    key: Seq<char>,
    arrival: u64,
    now: u64,
    ttl: u64,
)
    ensures
        !slots.contains_key(key) ==> cache::answer(slots, key, arrival, now, ttl) is None,
        slots.contains_key(key) ==> {
            let c = slots[key];
            let age = if c.at <= now {
                now - c.at
            } else {
                0
            };
            &&& age < ttl || c.at >= arrival ==> cache::answer(slots, key, arrival, now, ttl)
                == Some(c.value)
            &&& age >= ttl && c.at < arrival ==> cache::answer(
                slots,
                key,
                arrival,
                now,
                ttl,
            ) is None
        },
{
}

/// What may be shared is put in at the time at which it was fetched, in the
/// place of what was there; everything else stays.
pub proof fn lemma_settling<T>(
    slots: Map<Seq<char>, Cached<T>>,
    key: Seq<char>,
    other: Seq<char>,
    now: u64,
    value: T,
)
    ensures
        ({
            let after = cache::settled(slots, key, now, value, true);
            &&& after.contains_key(key) && after[key].at == now && after[key].value == value
            &&& other != key ==> after.contains_key(other) == slots.contains_key(other)
            &&& other != key && slots.contains_key(other) ==> after[other] == slots[other]
        }),
{
}

/// A reading is stale exactly where none runs and none was made within the
/// limit: there is none, or at least the limit in milliseconds, each a million
/// of the clock, has passed since the last.
pub proof fn lemma_staleness(job: MeshJob, now: u64, ttl_ms: u64)
    ensures
        job.running_since is Some ==> !job.stale(now, ttl_ms),
        job.running_since is None && job.snapshot is None ==> job.stale(now, ttl_ms),
        job.running_since is None ==> (job.snapshot matches Some((at, _)) ==> at <= now ==> (
        job.stale(now, ttl_ms) <==> now - at >= ttl_ms * 1_000_000)),
        job.running_since is None ==> (job.snapshot matches Some((at, _)) ==> at > now ==> (
        job.stale(now, ttl_ms) <==> ttl_ms == 0)),
{
    if let Some((at, _)) = job.snapshot {
        if at <= now {
            let d = now - at;
            assert(d / 1_000_000 >= ttl_ms <==> d >= ttl_ms * 1_000_000);
        }
    }
}

/// The age of a reading and the time that one has run are whole milliseconds,
/// rounded down; there is an age exactly where there is a reading, and a time
/// exactly where one runs.
pub proof fn lemma_ages(job: MeshJob, now: u64)
    ensures
        job.age(now) is Some <==> job.snapshot is Some,
        job.elapsed(now) is Some <==> job.running_since is Some,
        job.snapshot matches Some((at, _)) ==> at <= now ==> (job.age(now) matches Some(ms) && ms
            * 1_000_000 <= now - at < (ms + 1) * 1_000_000),
        job.running_since matches Some(at) ==> at <= now ==> (job.elapsed(now) matches Some(ms)
            && ms * 1_000_000 <= now - at < (ms + 1) * 1_000_000),
{
    if let Some((at, _)) = job.snapshot {
        if at <= now {
            assert((now - at) / 1_000_000 <= now - at);
        }
    }
    if let Some(at) = job.running_since {
        if at <= now {
            assert((now - at) / 1_000_000 <= now - at);
        }
    }
}

/// A reading that is asked for begins at that time, unless one runs; what was
/// read last stays, and the failure of an earlier one is forgotten.
pub proof fn lemma_begun(job: MeshJob, now: u64)
    ensures
        job.running_since is Some ==> job.begun(now) == job,
        job.running_since is None ==> job.begun(now).running_since == Some(now) && job.begun(
            now,
        ).snapshot == job.snapshot && job.begun(now).error is None,
{
}

/// What a reading comes to: the mesh in the document of a command that
/// succeeded, else a word for the failure.
pub proof fn lemma_reading(m: Mesh, outcome: ExecOutcome, document: Option<JsonView>)
    ensures
        outcome == ExecOutcome::Success ==> (document matches Some(raw) ==> mesh_job::reading(
            m,
            outcome,
            document,
        ) == Reading::Mesh(mesh::mesh(raw, m.thresholds, crate::charts::names(m.labels)))),
        outcome == ExecOutcome::Success && document is None ==> mesh_job::reading(
            m,
            outcome,
            document,
        ) == Reading::Failure("bad_json"@),
        outcome == ExecOutcome::Timeout ==> mesh_job::reading(m, outcome, document)
            == Reading::Failure("timeout"@),
        outcome == ExecOutcome::Rejected ==> mesh_job::reading(m, outcome, document)
            == Reading::Failure("rejected"@),
        outcome == ExecOutcome::NetworkError ==> mesh_job::reading(m, outcome, document)
            == Reading::Failure("network_error"@),
        outcome == ExecOutcome::SpawnFailed ==> mesh_job::reading(m, outcome, document)
            == Reading::Failure("spawn_failed"@),
        outcome == ExecOutcome::Failed ==> mesh_job::reading(m, outcome, document)
            == Reading::Failure("failed"@),
{
}

/// A reading is torn exactly where it succeeded and one of the entries for
/// participants has an address that would be cut across a character.
pub proof fn lemma_torn(outcome: ExecOutcome, document: Option<JsonView>)
    ensures
        mesh_job::torn(outcome, document) <==> outcome == ExecOutcome::Success && (
        document matches Some(raw) && exists|i: int|
            0 <= i < crate::json_laws::list_at(raw, "nodes"@).len() && !mesh::cuttable(
                #[trigger] crate::json_laws::list_at(raw, "nodes"@)[i],
            )),
{
    if let Some(raw) = document {
        assert(mesh::entries(raw, "nodes"@) =~= crate::json_laws::list_at(raw, "nodes"@));
    }
}

/// The limits on the listener.
pub proof fn lemma_limits()
    ensures
        listener::BACKOFF_MIN_MS == 1_000,
        listener::BACKOFF_MAX_MS == 30_000,
        listener::BACKOFF_RESET_AFTER_MS == 60_000,
        listener::CHILD_EXIT_GRACE_MS == 2_000,
        listener::REBASELINE_DELAY_MS == 3_000,
        listener::BROADCAST_CAPACITY == 64,
        Backoff::initial().wait_ms == 1_000,
        Backoff::initial().losses == 0,
{
}

/// A loss counts from the losses before it, unless the listener lived for a
/// minute; it is waited for as long as was due, and twice as long the next
/// time, up to half a minute. The third loss in a row, and each after it, is
/// worth a warning.
pub proof fn lemma_loss(b: Backoff, lived_ms: u64)
    ensures
        ({
            let wait: u64 = if lived_ms >= 60_000 {
                1_000
            } else {
                b.wait_ms
            };
            let before: u32 = if lived_ms >= 60_000 {
                0
            } else {
                b.losses
            };
            let r = b.loss(lived_ms);
            let after = b.after(lived_ms);
            &&& r.wait_ms == wait
            &&& before < u32::MAX ==> r.losses == before + 1
            &&& before == u32::MAX ==> r.losses == before
            &&& r.alarming <==> r.losses >= 3
            &&& after.losses == r.losses
            &&& 2 * wait <= 30_000 ==> after.wait_ms == 2 * wait
            &&& 2 * wait > 30_000 ==> after.wait_ms == 30_000
        }),
{
}

/// The phases of a listener that was started, printed lines, ended its output
/// and ended itself, in time or killed; what does not happen in a phase
/// changes none.
pub proof fn lemma_phases(phase: Phase, h: Happening)
    ensures
        listener::next_phase(phase, h) == Phase::Reading <==> (phase == Phase::Starting
            && h is Started) || (phase == Phase::Reading && !(h is OutputEnded)),
        listener::next_phase(phase, h) == Phase::Ending <==> (phase == Phase::Reading
            && h is OutputEnded) || (phase == Phase::Ending && !(h is Exited) && !(
        h is StillThere)),
        listener::next_phase(phase, h) == Phase::Killed <==> (phase == Phase::Ending
            && h is StillThere) || (phase == Phase::Killed && !(h is Exited)),
        listener::next_phase(phase, h) == Phase::Starting <==> phase == Phase::Starting && !(
        h is Started) && !(h is NotStarted),
{
}

/// Only the start of the listener and the lines that it prints while its
/// output is read change what is known of the lights.
pub proof fn lemma_what_lines_do(phase: Phase, h: Happening, m: PushModel)
    ensures
        phase == Phase::Starting && h is Started ==> listener::next_store(phase, h, m)
            == m.with_connection(true),
        phase == Phase::Reading ==> (h matches Happening::Line(line) ==> (
        crate::push::line_report(line@) matches Some(e) ==> listener::next_store(phase, h, m)
            == m.applied(e))),
        phase == Phase::Reading ==> (h matches Happening::Line(line) ==> (
        crate::push::line_report(line@) is None ==> listener::next_store(phase, h, m) == m)),
        !(phase == Phase::Starting && h is Started) && !(phase == Phase::Reading && h is Line)
            ==> listener::next_store(phase, h, m) == m,
{
}

/// What is done about each thing that happens to the listener.
pub proof fn lemma_tasks(phase: Phase, h: Happening, m: PushModel, task: Task)
    requires
        listener::right_task(phase, h, m, task),
    ensures
        phase == Phase::Starting && h is Started ==> (task matches Task::ReadAndRebaseline {
            delay_ms,
            generation,
        } && delay_ms == 3_000 && generation == m.with_connection(true).generation),
        phase == Phase::Starting && h is NotStarted ==> task is Stop,
        phase == Phase::Reading && h is OutputEnded ==> (task matches Task::AwaitExit {
            grace_ms,
        } && grace_ms == 2_000),
        phase == Phase::Ending && h is StillThere ==> task is Kill,
        (phase == Phase::Ending || phase == Phase::Killed) && h is Exited ==> task is Stop,
        task is Kill ==> phase == Phase::Ending && h is StillThere,
        phase == Phase::Over ==> task is Ignore,
        phase == Phase::Reading && h is Line ==> task is ReadOn,
        task is ReadOn ==> phase == Phase::Reading && h is Line,
        phase == Phase::Reading && !(h is Line) && !(h is OutputEnded) ==> task is Ignore,
{
}

/// What became of a line: it was blank, or held no report, or was of a node
/// that stands for no light, or was taken in, with the changes to tell.
pub proof fn lemma_line_is_answered(line: String, m: PushModel, taken: Ingested)
    requires
        listener::right_task(Phase::Reading, Happening::Line(line), m, Task::ReadOn(taken)),
    ensures
        taken is Blank <==> text::trimmed(line@).len() == 0,
        taken is Unreadable <==> text::trimmed(line@).len() > 0 && crate::push::line_report(
            line@,
        ) is None,
        taken matches Ingested::Foreign(node) ==> (crate::push::line_report(line@) matches Some(e)
            && e.node_id == node && !m.knows(node)),
        taken matches Ingested::Taken(events) ==> (crate::push::line_report(line@) matches Some(e)
            && m.knows(e.node_id) && crate::push::event_models(events@) == m.events(e)),
{
}

} // verus!
