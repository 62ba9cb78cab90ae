//! Running commands: what an exit means, and which commands wait for each
//! other.

use vstd::prelude::*;

use crate::text;

verus! {

/// How a command ended.
#[derive(Debug, Clone, Copy, PartialEq, Eq, Structural)]
pub enum ExecOutcome {
    Success,
    Timeout,
    Rejected,
    NetworkError,
    /// Any other exit that is not a success.
    Failed,
    /// The command could not be started.
    SpawnFailed,
}

/// How a command ended and what it printed.
#[derive(Debug)]
pub struct ExecResult {
    pub outcome: ExecOutcome,
    pub stdout: String,
    pub stderr: String,
}

/// What an exit code stands for; no code is a failure.
pub open spec fn outcome_of(code: Option<i32>) -> ExecOutcome {
    match code {
        Some(c) => if c == 0 {
            ExecOutcome::Success
        } else if c == 3 {
            ExecOutcome::Timeout
        } else if c == 4 {
            ExecOutcome::Rejected
        } else if c == 5 {
            ExecOutcome::NetworkError
        } else {
            ExecOutcome::Failed
        },
        None => ExecOutcome::Failed,
    }
}

impl ExecOutcome {
    /// What an exit code stands for.
    pub fn from_code(code: Option<i32>) -> (outcome: ExecOutcome)
        ensures
            outcome == outcome_of(code),
    {
        match code {
            Some(0) => ExecOutcome::Success,
            Some(3) => ExecOutcome::Timeout,
            Some(4) => ExecOutcome::Rejected,
            Some(5) => ExecOutcome::NetworkError,
            _ => ExecOutcome::Failed,
        }
    }
}

/// The text that `String::from_utf8_lossy` makes of bytes.
pub uninterp spec fn lossy(bytes: Seq<u8>) -> Seq<char>;

/// `String::from_utf8_lossy`: the text depends on the bytes alone, and bytes
/// that are UTF-8 give the text they encode.
#[verifier::external_body]
fn decode_lossy(bytes: &[u8]) -> (text: String)
    ensures
        text@ == lossy(bytes@),
        vstd::utf8::valid_utf8(bytes@) ==> text@ == vstd::utf8::decode_utf8(bytes@),
{
    String::from_utf8_lossy(bytes).into_owned()
}

impl ExecResult {
    /// A command that ran to its end.
    pub fn finished(code: Option<i32>, stdout: &[u8], stderr: &[u8]) -> (r: ExecResult)
        ensures
            r.outcome == outcome_of(code),
            r.stdout@ == lossy(stdout@),
            r.stderr@ == lossy(stderr@),
            vstd::utf8::valid_utf8(stdout@) ==> r.stdout@ == vstd::utf8::decode_utf8(stdout@),
            vstd::utf8::valid_utf8(stderr@) ==> r.stderr@ == vstd::utf8::decode_utf8(stderr@),
    {
        ExecResult {
            outcome: ExecOutcome::from_code(code),
            stdout: decode_lossy(stdout),
            stderr: decode_lossy(stderr),
        }
    }

    /// A command that could not be started.
    pub fn not_started(reason: &str) -> (r: ExecResult)
        ensures
            r.outcome == ExecOutcome::SpawnFailed,
            r.stdout@ == Seq::<char>::empty(),
            r.stderr@ == reason@,
    {
        ExecResult {
            outcome: ExecOutcome::SpawnFailed,
            stdout: String::new(),
            stderr: reason.to_owned(),
        }
    }

    /// A command that was stopped because it ran for too long.
    pub fn timed_out() -> (r: ExecResult)
        ensures
            r.outcome == ExecOutcome::Timeout,
            r.stdout@ == Seq::<char>::empty(),
            r.stderr@ == "exec timeout"@,
    {
        ExecResult {
            outcome: ExecOutcome::Timeout,
            stdout: String::new(),
            stderr: "exec timeout".to_owned(),
        }
    }
}

/// A command line taken apart: the program, and what is handed to it.
pub fn invocation(cmd: &[String]) -> (r: (&str, Vec<&str>))
    requires
        cmd@.len() > 0,
    ensures
        r.0@ == cmd@[0]@,
        r.1@.len() == cmd@.len() - 1,
        forall|i: int| 0 <= i < r.1@.len() ==> (#[trigger] r.1@[i])@ == cmd@[i + 1]@,
{
    let mut args: Vec<&str> = Vec::new();
    let mut i: usize = 1;
    while i < cmd.len()
        invariant
            1 <= i <= cmd.len(),
            args@.len() == i - 1,
            forall|j: int| 0 <= j < args@.len() ==> (#[trigger] args@[j])@ == cmd@[j + 1]@,
        decreases cmd.len() - i,
    {
        args.push(cmd[i].as_str());
        i += 1;
    }
    (cmd[0].as_str(), args)
}

/// The lanes that have been used. Commands of one lane wait for each other;
/// each lane has a number, under which the one that runs commands keeps what
/// they wait for.
#[derive(Debug)]
pub struct Lanes {
    names: Vec<String>,
}

impl View for Lanes {
    type V = Seq<Seq<char>>;

    /// The names of the lanes, each at its number.
    closed spec fn view(&self) -> Seq<Seq<char>> {
        text::texts(self.names@)
    }
}

/// The lanes after one was asked for: a new one is added at the end.
pub open spec fn with_lane(lanes: Seq<Seq<char>>, name: Seq<char>) -> Seq<Seq<char>> {
    if lanes.contains(name) {
        lanes
    } else {
        lanes.push(name)
    }
}

impl Lanes {
    /// No lanes.
    pub fn new() -> (lanes: Lanes)
        ensures
            lanes@ == Seq::<Seq<char>>::empty(),
    {
        let lanes = Lanes { names: Vec::new() };
        assert(lanes@ =~= Seq::<Seq<char>>::empty());
        lanes
    }

    /// The number of a lane, the next free one for a lane not used before.
    pub fn lane(&mut self, name: &str) -> (n: usize)
        ensures
            final(self)@ == with_lane(old(self)@, name@),
            n < final(self)@.len(),
            final(self)@[n as int] == name@,
            forall|i: int| 0 <= i < n ==> final(self)@[i] != name@,
    {
        let ghost before = self.names@;
        let mut i: usize = 0;
        while i < self.names.len()
            invariant
                i <= self.names.len(),
                self.names@ == before,
                forall|j: int| 0 <= j < i ==> text::texts(before)[j] != name@,
            decreases self.names.len() - i,
        {
            if text::same(self.names[i].as_str(), name) {
                assert(text::texts(before)[i as int] == name@);
                return i;
            }
            i += 1;
        }
        self.names.push(name.to_owned());
        assert(self@ =~= text::texts(before).push(name@));
        i
    }
}

/// Where each lane has one number, it keeps it, whatever lane is asked for
/// later, and no two lanes share one.
pub proof fn lemma_lanes(lanes: Seq<Seq<char>>, name: Seq<char>)
    requires
        lanes.no_duplicates(),
    ensures
        with_lane(lanes, name).no_duplicates(),
        lanes.len() <= with_lane(lanes, name).len(),
        forall|i: int| 0 <= i < lanes.len() ==> with_lane(lanes, name)[i] == lanes[i],
        with_lane(lanes, name).contains(name),
{
    let after = with_lane(lanes, name);
    if !lanes.contains(name) {
        assert(after[lanes.len() as int] == name);
        assert forall|a: int, b: int|
            0 <= a < after.len() && 0 <= b < after.len() && a != b implies #[trigger] after[a]
            != #[trigger] after[b] by {
            if a < lanes.len() && b < lanes.len() {
                assert(lanes[a] != lanes[b]);
            } else if a < lanes.len() {
                assert(lanes.contains(lanes[a]));
            } else {
                assert(lanes.contains(lanes[b]));
            }
        }
    }
}

} // verus!
