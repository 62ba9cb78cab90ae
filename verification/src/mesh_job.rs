//! Reading the mesh in the background: one reading at a time, and what is
//! known of the last.

use vstd::prelude::*;

use crate::config::{Config, Mesh};
use crate::dict;
use crate::json;
use crate::json::{Json, JsonView};
use crate::mesh;
use crate::mesh::{MeshModel, MeshView};
use crate::reply;
use crate::reply::Reply;
use crate::subprocess::{ExecOutcome, ExecResult};
use crate::text;
use crate::wire;

verus! {

/// A reading of the mesh that may be running, and the last ones that ended.
/// Times are nanoseconds of one clock that never runs backwards.
#[derive(Debug)]
pub struct MeshJob {
    pub running_since: Option<u64>,
    /// The last reading that succeeded, with the time at which it ended.
    pub snapshot: Option<(u64, MeshView)>,
    /// Why the last reading failed, where it did.
    pub error: Option<String>,
}

impl Default for MeshJob {
    fn default() -> (job: MeshJob)
        ensures
            job.running_since is None && job.snapshot is None && job.error is None,
    {
        MeshJob { running_since: None, snapshot: None, error: None }
    }
}

/// The state of the reading, as it is answered.
#[derive(Debug)]
pub struct MeshStatusView<'a> {
    /// `empty`, `running`, `idle` or `failed`.
    pub status: &'static str,
    pub label: Option<&'a str>,
    /// Whether the mesh ought to be read anew.
    pub stale: bool,
    pub age_ms: Option<u64>,
    pub elapsed_ms: Option<u64>,
    pub snapshot: Option<&'a MeshView>,
    pub error: Option<&'a str>,
}

/// The whole milliseconds from one time to a later one.
pub open spec fn ms_between(from: u64, to: u64) -> u64 {
    if from <= to {
        ((to - from) / 1000000) as u64
    } else {
        0
    }
}

fn elapsed_ms(from: u64, to: u64) -> (ms: u64)
    ensures
        ms == ms_between(from, to),
{
    if from <= to {
        (to - from) / 1000000
    } else {
        0
    }
}

impl MeshJob {
    /// The state of the reading in a word.
    pub open spec fn word(self) -> Seq<char> {
        if self.running_since is Some {
            "running"@
        } else if self.error is Some {
            "failed"@
        } else if self.snapshot is Some {
            "idle"@
        } else {
            "empty"@
        }
    }

    /// The mesh ought to be read anew: it is not being read, and was never
    /// read or so long ago that it no longer counts.
    pub open spec fn stale(self, now: u64, ttl_ms: u64) -> bool {
        self.running_since is None && (self.snapshot matches Some((at, _)) ==> ms_between(at, now)
            >= ttl_ms)
    }

    /// The time since the last reading that succeeded.
    pub open spec fn age(self, now: u64) -> Option<u64> {
        match self.snapshot {
            Some((at, _)) => Some(ms_between(at, now)),
            None => None,
        }
    }

    /// The time since the running reading began.
    pub open spec fn elapsed(self, now: u64) -> Option<u64> {
        match self.running_since {
            Some(since) => Some(ms_between(since, now)),
            None => None,
        }
    }

    /// The state of the reading at the time `now`, with what was read last.
    pub fn status<'a>(&'a self, mesh: &'a Mesh, now: u64) -> (r: MeshStatusView<'a>)
        ensures
            r.status@ == self.word(),
            text::read(r.label) == text::held(mesh.label),
            r.stale == self.stale(now, mesh.ttl_ms),
            r.age_ms == self.age(now),
            r.elapsed_ms == self.elapsed(now),
            match self.snapshot {
                Some((_, v)) => r.snapshot == Some(&v),
                None => r.snapshot is None,
            },
            text::read(r.error) == text::held(self.error),
    {
        let status = if self.running_since.is_some() {
            "running"
        } else if self.error.is_some() {
            "failed"
        } else if self.snapshot.is_some() {
            "idle"
        } else {
            "empty"
        };
        let age_ms = match &self.snapshot {
            Some((at, _)) => Some(elapsed_ms(*at, now)),
            None => None,
        };
        let stale = self.running_since.is_none() && match age_ms {
            Some(age) => age >= mesh.ttl_ms,
            None => true,
        };
        MeshStatusView {
            status,
            label: match &mesh.label {
                Some(l) => Some(l.as_str()),
                None => None,
            },
            stale,
            age_ms,
            elapsed_ms: match self.running_since {
                Some(since) => Some(elapsed_ms(since, now)),
                None => None,
            },
            snapshot: match &self.snapshot {
                Some((_, v)) => Some(v),
                None => None,
            },
            error: match &self.error {
                Some(e) => Some(e.as_str()),
                None => None,
            },
        }
    }

    /// The reading after it was asked for.
    pub open spec fn begun(self, now: u64) -> MeshJob {
        if self.running_since is Some {
            self
        } else {
            MeshJob { running_since: Some(now), snapshot: self.snapshot, error: None }
        }
    }

    /// A reading is asked for. Gives whether it is to be made: one that is
    /// running already serves this request too.
    pub fn begin(&mut self, now: u64) -> (start: bool)
        ensures
            start == old(self).running_since is None,
            *final(self) == old(self).begun(now),
    {
        if self.running_since.is_some() {
            return false;
        }
        self.running_since = Some(now);
        self.error = None;
        true
    }

    /// The running reading has ended: what was read takes the place of what
    /// was known, or the reason of the failure is noted beside it.
    pub fn finish(&mut self, now: u64, outcome: Result<MeshView, &'static str>)
        ensures
            final(self).running_since is None,
            match outcome {
                Ok(view) => final(self).snapshot == Some((now, view)) && final(self).error is None,
                Err(kind) => final(self).snapshot == old(self).snapshot && text::held(
                    final(self).error,
                ) == Some(kind@),
            },
    {
        self.running_since = None;
        match outcome {
            Ok(view) => {
                self.error = None;
                self.snapshot = Some((now, view));
            },
            Err(kind) => {
                self.error = Some(kind.to_owned());
            },
        }
    }
}

/// The word for a reading that did not succeed.
pub open spec fn failure_word(outcome: ExecOutcome) -> Seq<char> {
    match outcome {
        ExecOutcome::Timeout => "timeout"@,
        ExecOutcome::Rejected => "rejected"@,
        ExecOutcome::NetworkError => "network_error"@,
        ExecOutcome::SpawnFailed => "spawn_failed"@,
        _ => "failed"@,
    }
}

/// What a reading comes to.
pub enum Reading {
    /// The mesh.
    Mesh(MeshModel),
    /// The word for its failure.
    Failure(Seq<char>),
}

/// What a reading that ended that way and printed that document comes to.
pub open spec fn reading(m: Mesh, outcome: ExecOutcome, document: Option<JsonView>) -> Reading {
    if outcome != ExecOutcome::Success {
        Reading::Failure(failure_word(outcome))
    } else {
        match document {
            Some(raw) => Reading::Mesh(
                mesh::mesh(raw, m.thresholds, crate::charts::names(m.labels)),
            ),
            None => Reading::Failure("bad_json"@),
        }
    }
}

/// What the result of a reading says.
pub open spec fn read_as(r: Result<MeshView, &'static str>) -> Reading {
    match r {
        Ok(v) => Reading::Mesh(v@),
        Err(kind) => Reading::Failure(kind@),
    }
}

/// An address in what was read would be cut across a character.
pub open spec fn torn(outcome: ExecOutcome, document: Option<JsonView>) -> bool {
    outcome == ExecOutcome::Success && (document matches Some(raw) && !mesh::all_cuttable(raw))
}

/// What a reading that ended that way and printed that document comes to.
pub fn view_mesh(m: &Mesh, outcome: ExecOutcome, document: Option<&Json>) -> (r: Result<
    MeshView,
    &'static str,
>)
    requires
        !torn(outcome, json::said(document)),
    ensures
        read_as(r) == reading(*m, outcome, json::said(document)),
{
    match outcome {
        ExecOutcome::Success => {},
        ExecOutcome::Timeout => return Err("timeout"),
        ExecOutcome::Rejected => return Err("rejected"),
        ExecOutcome::NetworkError => return Err("network_error"),
        ExecOutcome::SpawnFailed => return Err("spawn_failed"),
        ExecOutcome::Failed => return Err("failed"),
    }
    match document {
        Some(raw) => {
            let labels = match &m.labels {
                Some(d) => Some(d),
                None => None,
            };
            assert(dict::display_names(labels) == crate::charts::names(m.labels));
            Ok(mesh::normalize_mesh(raw, &m.thresholds, labels))
        },
        None => Err("bad_json"),
    }
}

/// What the command that reads the mesh comes to, from how it ended and what
/// it printed; `None` where an address that it printed would be cut across a
/// character.
pub fn run_mesh_job(m: &Mesh, result: &ExecResult) -> (r: Option<Result<MeshView, &'static str>>)
    ensures
        match r {
            Some(read) => !torn(result.outcome, wire::document(result.stdout@)) && read_as(read)
                == reading(*m, result.outcome, wire::document(result.stdout@)),
            None => torn(result.outcome, wire::document(result.stdout@)),
        },
{
    let document = wire::parse(result.stdout.as_str());
    if result.outcome == ExecOutcome::Success {
        if let Some(raw) = &document {
            if !mesh::is_all_cuttable(raw) {
                return None;
            }
        }
    }
    let lent = match &document {
        Some(raw) => Some(raw),
        None => None,
    };
    Some(view_mesh(m, result.outcome, lent))
}

/// The mesh of a configuration, or the refusal of a request for it.
pub fn find_mesh<'a>(config: &'a Config) -> (r: Result<&'a Mesh, Reply>)
    ensures
        match config.mesh {
            Some(m) => r matches Ok(found) && *found == m,
            None => r matches Err(e) && reply::says_no_mesh(e),
        },
{
    match &config.mesh {
        Some(m) => Ok(m),
        None => Err(reply::mesh_not_configured()),
    }
}

/// A reading that runs is not shown with the failure of an earlier one.
pub open spec fn coherent(job: MeshJob) -> bool {
    job.running_since is Some ==> job.error is None
}

/// Asking for a reading keeps the job coherent and what was read last; the
/// reading then runs, nobody is told to ask for another, and asking again
/// changes nothing.
pub proof fn lemma_asking(job: MeshJob, now: u64, later: u64, ttl_ms: u64)
    requires
        coherent(job),
    ensures
        coherent(job.begun(now)),
        job.begun(now).word() == "running"@,
        job.begun(now).error is None,
        job.begun(now).snapshot == job.snapshot,
        !job.begun(now).stale(later, ttl_ms),
        job.begun(now).begun(later) == job.begun(now),
{
}

/// The state of the reading tells whether one runs, failed, succeeded or was
/// never made.
pub proof fn lemma_words(job: MeshJob)
    ensures
        job.word() == "running"@ <==> job.running_since is Some,
        job.word() == "failed"@ <==> job.running_since is None && job.error is Some,
        job.word() == "idle"@ <==> job.running_since is None && job.error is None
            && job.snapshot is Some,
        job.word() == "empty"@ <==> job.running_since is None && job.error is None
            && job.snapshot is None,
{
    reveal_strlit("running");
    reveal_strlit("failed");
    reveal_strlit("idle");
    reveal_strlit("empty");
    assert("running"@[0] == 'r' && "failed"@[0] == 'f' && "idle"@[0] == 'i' && "empty"@[0] == 'e');
}

} // verus!
