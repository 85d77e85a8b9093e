//! The playback probe: a bounded log of play commands, idempotent by
//! request id and replayable from a cursor, and a bounded log of display
//! telemetry whose text is sanitised before it is kept.

use crate::gateway::{sanitize_optional, sanitize_spec, sanitize_text};
use crate::auth::opt_str;
use crate::playback::str_eq;
use crate::ids::{is_opaque_token, new_opaque_token};
use crate::text::{all_ident_chars, all_ident_chars_exec, byte_len, chars_of, trim, trim_bounds};
use vstd::prelude::*;

verus! {

/// Why a given probe request id is refused: longer than 128 bytes, or
/// holding a character other than ASCII letters, digits and `.:_-`.
pub open spec fn probe_request_id_problem(v: Seq<char>) -> Option<Seq<char>> {
    if byte_len(v) > 128 {
        Some("request_id_too_long"@)
    } else if !all_ident_chars(v) {
        Some("request_id_invalid"@)
    } else {
        None
    }
}

/// The request id a play command is recorded under: the given one, checked,
/// or a fresh opaque token where none or only white space was given.
pub fn probe_request_id(input: Option<String>) -> (r: Result<String, &'static str>)
    ensures
        match input {
            Some(v) => if trim(v@).len() > 0 {
                match probe_request_id_problem(v@) {
                    Some(code) => r is Err && r->Err_0@ == code,
                    None => r is Ok && r->Ok_0@ == v@,
                }
            } else {
                r is Ok && is_opaque_token(r->Ok_0@)
            },
            None => r is Ok && is_opaque_token(r->Ok_0@),
        },
{
    let given = match input {
        Some(v) => {
            let chars = chars_of(v.as_str());
            let (start, end) = trim_bounds(&chars);
            if start < end {
                Some(v)
            } else {
                None
            }
        },
        None => None,
    };
    match given {
        None => Ok(new_opaque_token()),
        Some(v) => {
            if v.as_str().as_bytes().len() > 128 {
                return Err("request_id_too_long");
            }
            if !all_ident_chars_exec(v.as_str()) {
                return Err("request_id_invalid");
            }
            Ok(v)
        },
    }
}

/// The most commands, and the most telemetry records, the probe keeps.
pub const MAX_PROBE_RECORDS: usize = 256;

#[derive(Clone, Debug, PartialEq, Eq)]
pub struct ProbeCommand {
    pub sequence: u64,
    pub request_id: String,
    pub kind: &'static str,
}

pub struct CommandView {
    pub sequence: u64,
    pub request_id: Seq<char>,
    pub kind: Seq<char>,
}

impl View for ProbeCommand {
    type V = CommandView;

    open spec fn view(&self) -> CommandView {
        CommandView { sequence: self.sequence, request_id: self.request_id@, kind: self.kind@ }
    }
}

pub open spec fn commands_view(s: Seq<ProbeCommand>) -> Seq<CommandView> {
    s.map_values(|c: ProbeCommand| c@)
}

/// Display telemetry as the probe keeps it.
#[derive(Clone, Debug)]
pub struct ProbeTelemetry {
    pub sequence: u64,
    pub kind: String,
    pub command_id: Option<String>,
    pub attempt_id: Option<String>,
    pub result: Option<String>,
    pub error_name: Option<String>,
    pub error_message: Option<String>,
    pub muted: Option<bool>,
    pub detail: Option<String>,
}

/// Display telemetry as a display reports it.
pub struct ProbeTelemetryRequest {
    pub kind: String,
    pub command_id: Option<String>,
    pub attempt_id: Option<String>,
    pub result: Option<String>,
    pub error_name: Option<String>,
    pub error_message: Option<String>,
    pub muted: Option<bool>,
    pub detail: Option<String>,
}

/// The commands after a cursor.
pub struct ProbeEventsResponse {
    pub cursor: u64,
    pub events: Vec<ProbeCommand>,
    pub truncated: bool,
}

pub struct ProbeStore {
    next_command: u64,
    commands: Vec<ProbeCommand>,
    next_telemetry: u64,
    telemetry: Vec<ProbeTelemetry>,
}

pub struct ProbeView {
    pub next_command: u64,
    pub commands: Seq<CommandView>,
    pub next_telemetry: u64,
    pub telemetry_count: nat,
}

impl View for ProbeStore {
    type V = ProbeView;

    closed spec fn view(&self) -> ProbeView {
        ProbeView {
            next_command: self.next_command,
            commands: commands_view(self.commands@),
            next_telemetry: self.next_telemetry,
            telemetry_count: self.telemetry@.len(),
        }
    }
}

/// Commands in issue order, under distinct request ids, numbered at most
/// up to the last issued number, each of them a play command.
pub open spec fn commands_ok(s: Seq<CommandView>, next: u64) -> bool {
    &&& forall|i: int| 0 <= i < s.len() ==> #[trigger] s[i].kind == "play"@
    &&& forall|i: int, j: int|
        0 <= i < j < s.len() ==> #[trigger] s[i].sequence < #[trigger] s[j].sequence
            && s[i].request_id != s[j].request_id
    &&& forall|i: int| 0 <= i < s.len() ==> #[trigger] s[i].sequence <= next
    &&& s.len() <= MAX_PROBE_RECORDS
}

/// The index of the command under `request_id`, if any.
pub open spec fn command_index(s: Seq<CommandView>, request_id: Seq<char>) -> Option<int> {
    if exists|i: int| 0 <= i < s.len() && #[trigger] s[i].request_id == request_id {
        Some(choose|i: int| 0 <= i < s.len() && #[trigger] s[i].request_id == request_id)
    } else {
        None
    }
}

/// The log after appending a command and keeping the newest records.
pub open spec fn appended(s: Seq<CommandView>, c: CommandView) -> Seq<CommandView> {
    let t = s.push(c);
    if t.len() > MAX_PROBE_RECORDS {
        t.skip(t.len() - MAX_PROBE_RECORDS)
    } else {
        t
    }
}

/// The commands of `s` numbered after `after`, in order.
pub open spec fn commands_after(s: Seq<CommandView>, after: u64) -> Seq<CommandView>
    decreases s.len(),
{
    if s.len() == 0 {
        s
    } else {
        let rest = commands_after(s.drop_last(), after);
        if s.last().sequence > after {
            rest.push(s.last())
        } else {
            rest
        }
    }
}

/// Every command kept after a cursor is of a kind that every command of the
/// log has.
pub proof fn lemma_commands_after_kind(s: Seq<CommandView>, after: u64, kind: Seq<char>)
    requires
        forall|i: int| 0 <= i < s.len() ==> #[trigger] s[i].kind == kind,
    ensures
        forall|k: int|
            0 <= k < commands_after(s, after).len() ==> #[trigger] commands_after(s, after)[k].kind
                == kind,
    decreases s.len(),
{
    if s.len() > 0 {
        let d = s.drop_last();
        assert forall|i: int| 0 <= i < d.len() implies #[trigger] d[i].kind == kind by {
            assert(d[i] == s[i]);
        }
        lemma_commands_after_kind(d, after, kind);
        let rest = commands_after(d, after);
        assert(s.last() == s[s.len() - 1]);
        if s.last().sequence > after {
            assert forall|k: int| 0 <= k < rest.push(s.last()).len() implies #[trigger] rest.push(
                s.last(),
            )[k].kind == kind by {
                if k < rest.len() {
                    assert(rest.push(s.last())[k] == rest[k]);
                }
            }
        }
    }
}

impl ProbeStore {
    pub closed spec fn wf(&self) -> bool {
        commands_ok(self@.commands, self@.next_command) && self@.telemetry_count <= MAX_PROBE_RECORDS
    }

    pub fn new() -> (r: Self)
        ensures
            r.wf(),
            r@.next_command == 0,
            r@.commands == Seq::<CommandView>::empty(),
            r@.next_telemetry == 0,
            r@.telemetry_count == 0,
    {
        let r = ProbeStore {
            next_command: 0,
            commands: Vec::new(),
            next_telemetry: 0,
            telemetry: Vec::new(),
        };
        assert(r@.commands =~= Seq::<CommandView>::empty());
        r
    }

    /// Clears both logs and restarts the numbering.
    pub fn reset(&mut self)
        ensures
            final(self).wf(),
            final(self)@.next_command == 0,
            final(self)@.commands == Seq::<CommandView>::empty(),
            final(self)@.next_telemetry == 0,
            final(self)@.telemetry_count == 0,
    {
        *self = ProbeStore::new();
    }

    pub fn counters_exhausted(&self) -> (r: bool)
        ensures
            r == (self@.next_command == u64::MAX || self@.next_telemetry == u64::MAX),
    {
        self.next_command == u64::MAX || self.next_telemetry == u64::MAX
    }

    /// Issues a play command under `request_id`; a request id already in
    /// the log gives back its command, marked as a duplicate.
    pub fn issue_play(&mut self, request_id: String) -> (r: (ProbeCommand, bool))
        requires
            old(self).wf(),
            old(self)@.next_command < u64::MAX,
        ensures
            final(self).wf(),
            r.0.kind@ == "play"@,
            match command_index(old(self)@.commands, request_id@) {
                Some(i) => r.1 && r.0@ == old(self)@.commands[i] && final(self)@ == old(self)@,
                None => {
                    let c = CommandView {
                        sequence: (old(self)@.next_command + 1) as u64,
                        request_id: request_id@,
                        kind: "play"@,
                    };
                    &&& !r.1
                    &&& r.0@ == c
                    &&& final(self)@ == ProbeView {
                        next_command: c.sequence,
                        commands: appended(old(self)@.commands, c),
                        ..old(self)@
                    }
                },
            },
    {
        let ghost s = self@.commands;
        proof {
            reveal_strlit("play");
        }
        let mut i: usize = 0;
        while i < self.commands.len()
            invariant
                i <= s.len(),
                s == self@.commands,
                self.wf(),
                forall|k: int| 0 <= k < i ==> #[trigger] s[k].request_id != request_id@,
            decreases s.len() - i,
        {
            assert(s[i as int] == self.commands@[i as int]@);
            if str_eq(self.commands[i].request_id.as_str(), request_id.as_str()) {
                assert(s[i as int].request_id == request_id@);
                assert(s[i as int].kind == "play"@);
                proof {
                    let w = choose|k: int| 0 <= k < s.len() && #[trigger] s[k].request_id == request_id@;
                    if w < i {
                        assert(s[w].request_id != request_id@);
                    } else if w > i {
                        assert(s[i as int].sequence < s[w].sequence);
                        assert(s[i as int].request_id != s[w].request_id);
                    }
                }
                let found = ProbeCommand {
                    sequence: self.commands[i].sequence,
                    request_id: self.commands[i].request_id.clone(),
                    kind: "play",
                };
                return (found, true);
            }
            i = i + 1;
        }
        assert(command_index(s, request_id@) is None);
        let sequence = self.next_command + 1;
        self.next_command = sequence;
        let command = ProbeCommand { sequence, request_id: request_id.clone(), kind: "play" };
        let reply = ProbeCommand { sequence, request_id, kind: "play" };
        self.commands.push(command);
        let ghost c = CommandView { sequence, request_id: reply.request_id@, kind: reply.kind@ };
        assert(self@.commands =~= s.push(c));
        if self.commands.len() > MAX_PROBE_RECORDS {
            let ghost t = self@.commands;
            self.commands.remove(0);
            assert(self@.commands =~= t.skip(1));
            assert(t.len() - MAX_PROBE_RECORDS == 1);
        }
        proof {
            let t = s.push(c);
            let f = self@.commands;
            assert(f == appended(s, c));
            let e = if t.len() > MAX_PROBE_RECORDS { 1int } else { 0int };
            assert(f == t.skip(e));
            assert forall|a: int, b: int| 0 <= a < b < f.len() implies #[trigger] f[a].sequence
                < #[trigger] f[b].sequence && f[a].request_id != f[b].request_id by {
                assert(f[a] == t[a + e] && f[b] == t[b + e]);
                if b + e == s.len() {
                    assert(t[a + e] == s[a + e]);
                } else {
                    assert(t[a + e] == s[a + e] && t[b + e] == s[b + e]);
                }
            }
            assert forall|a: int| 0 <= a < f.len() implies #[trigger] f[a].sequence <= sequence by {
                assert(f[a] == t[a + e]);
                if a + e < s.len() {
                    assert(t[a + e] == s[a + e]);
                }
            }
        }
        (reply, false)
    }

    /// The commands numbered after `after`, the cursor (the last issued
    /// number), and whether commands after `after` were already dropped.
    pub fn events_after(&self, after: u64) -> (r: ProbeEventsResponse)
        requires
            self.wf(),
        ensures
            r.cursor == self@.next_command,
            commands_view(r.events@) == commands_after(self@.commands, after),
            forall|k: int| 0 <= k < r.events@.len() ==> #[trigger] r.events@[k].kind@ == "play"@,
            r.truncated == (after + 1 < if self@.commands.len() > 0 {
                self@.commands[0].sequence as int
            } else {
                self@.next_command + 1
            }),
    {
        let ghost s = self@.commands;
        let mut events: Vec<ProbeCommand> = Vec::new();
        let mut i: usize = 0;
        assert(s.take(0) =~= Seq::<CommandView>::empty());
        assert(commands_view(events@) =~= commands_after(s.take(0), after));
        while i < self.commands.len()
            invariant
                i <= s.len(),
                s == self@.commands,
                commands_view(events@) == commands_after(s.take(i as int), after),
            decreases s.len() - i,
        {
            assert(s[i as int] == self.commands@[i as int]@);
            let ghost before = commands_view(events@);
            proof {
                assert(s.take(i + 1).drop_last() =~= s.take(i as int));
                assert(s.take(i + 1).last() == s[i as int]);
            }
            if self.commands[i].sequence > after {
                let copy = ProbeCommand {
                    sequence: self.commands[i].sequence,
                    request_id: self.commands[i].request_id.clone(),
                    kind: self.commands[i].kind,
                };
                events.push(copy);
                assert(commands_view(events@) =~= before.push(s[i as int]));
            }
            i = i + 1;
        }
        assert(s.take(s.len() as int) =~= s);
        proof {
            lemma_commands_after_kind(s, after, "play"@);
            assert forall|k: int| 0 <= k < events@.len() implies #[trigger] events@[k].kind@
                == "play"@ by {
                assert(commands_view(events@) == commands_after(s, after));
                assert(commands_view(events@)[k] == events@[k]@);
                assert(commands_after(s, after)[k].kind == "play"@);
            }
        }
        let truncated = if self.commands.len() > 0 {
            assert(s[0] == self.commands@[0]@);
            (after as u128) + 1 < (self.commands[0].sequence as u128)
        } else {
            (after as u128) + 1 < (self.next_command as u128) + 1
        };
        ProbeEventsResponse { cursor: self.next_command, events, truncated }
    }

    /// Appends display telemetry, its text sanitised and bounded, keeping
    /// the newest records; gives its number.
    pub fn append_telemetry(&mut self, input: ProbeTelemetryRequest) -> (r: u64)
        requires
            old(self).wf(),
            old(self)@.next_telemetry < u64::MAX,
        ensures
            final(self).wf(),
            r == old(self)@.next_telemetry + 1,
            final(self)@.next_telemetry == r,
            final(self)@.commands == old(self)@.commands,
            final(self)@.next_command == old(self)@.next_command,
            final(self)@.telemetry_count == if old(self)@.telemetry_count + 1 > MAX_PROBE_RECORDS {
                MAX_PROBE_RECORDS as nat
            } else {
                old(self)@.telemetry_count + 1
            },
            final(self).last_telemetry() == (TelemetryView {
                sequence: r,
                kind: sanitize_spec(input.kind@, 48),
                command_id: sanitized(opt_str(input.command_id), 128),
                attempt_id: sanitized(opt_str(input.attempt_id), 128),
                result: sanitized(opt_str(input.result), 48),
                error_name: sanitized(opt_str(input.error_name), 96),
                error_message: sanitized(opt_str(input.error_message), 256),
                muted: input.muted,
                detail: sanitized(opt_str(input.detail), 256),
            }),
    {
        let sequence = self.next_telemetry + 1;
        self.next_telemetry = sequence;
        let record = ProbeTelemetry {
            sequence,
            kind: sanitize_text(input.kind.as_str(), 48),
            command_id: sanitize_optional(input.command_id, 128),
            attempt_id: sanitize_optional(input.attempt_id, 128),
            result: sanitize_optional(input.result, 48),
            error_name: sanitize_optional(input.error_name, 96),
            error_message: sanitize_optional(input.error_message, 256),
            muted: input.muted,
            detail: sanitize_optional(input.detail, 256),
        };
        self.telemetry.push(record);
        if self.telemetry.len() > MAX_PROBE_RECORDS {
            self.telemetry.remove(0);
        }
        sequence
    }

    pub closed spec fn last_telemetry(&self) -> TelemetryView {
        telemetry_view(self.telemetry@.last())
    }

    /// The cursor, both logs, in order.
    pub fn state_snapshot(&self) -> (r: (u64, Vec<ProbeCommand>, Vec<ProbeTelemetry>))
        requires
            self.wf(),
        ensures
            r.0 == self@.next_command,
            commands_view(r.1@) == self@.commands,
            forall|k: int| 0 <= k < r.1@.len() ==> #[trigger] r.1@[k].kind@ == "play"@,
            r.2@.len() == self@.telemetry_count,
    {
        let mut commands: Vec<ProbeCommand> = Vec::new();
        let mut i: usize = 0;
        while i < self.commands.len()
            invariant
                i <= self.commands@.len(),
                commands_view(commands@) == commands_view(self.commands@).take(i as int),
            decreases self.commands@.len() - i,
        {
            let ghost before = commands_view(commands@);
            let copy = ProbeCommand {
                sequence: self.commands[i].sequence,
                request_id: self.commands[i].request_id.clone(),
                kind: self.commands[i].kind,
            };
            commands.push(copy);
            assert(commands_view(self.commands@)[i as int] == self.commands@[i as int]@);
            assert(commands_view(commands@) =~= before.push(self.commands@[i as int]@));
            assert(commands_view(commands@) =~= commands_view(self.commands@).take(i + 1));
            i = i + 1;
        }
        assert(commands_view(self.commands@).take(i as int) =~= commands_view(self.commands@));
        assert forall|k: int| 0 <= k < commands@.len() implies #[trigger] commands@[k].kind@
            == "play"@ by {
            assert(commands_view(commands@)[k] == commands@[k]@);
            assert(commands_view(self.commands@)[k] == self.commands@[k]@);
            assert(self@.commands[k].kind == "play"@);
        }
        let mut telemetry: Vec<ProbeTelemetry> = Vec::new();
        let mut j: usize = 0;
        while j < self.telemetry.len()
            invariant
                j <= self.telemetry@.len(),
                telemetry@.len() == j,
            decreases self.telemetry@.len() - j,
        {
            telemetry.push(self.telemetry[j].clone());
            j = j + 1;
        }
        (self.next_command, commands, telemetry)
    }
}

pub struct TelemetryView {
    pub sequence: u64,
    pub kind: Seq<char>,
    pub command_id: Option<Seq<char>>,
    pub attempt_id: Option<Seq<char>>,
    pub result: Option<Seq<char>>,
    pub error_name: Option<Seq<char>>,
    pub error_message: Option<Seq<char>>,
    pub muted: Option<bool>,
    pub detail: Option<Seq<char>>,
}

pub open spec fn telemetry_view(t: ProbeTelemetry) -> TelemetryView {
    TelemetryView {
        sequence: t.sequence,
        kind: t.kind@,
        command_id: opt_str(t.command_id),
        attempt_id: opt_str(t.attempt_id),
        result: opt_str(t.result),
        error_name: opt_str(t.error_name),
        error_message: opt_str(t.error_message),
        muted: t.muted,
        detail: opt_str(t.detail),
    }
}

pub open spec fn sanitized(v: Option<Seq<char>>, max: nat) -> Option<Seq<char>> {
    match v {
        Some(s) => Some(sanitize_spec(s, max)),
        None => None,
    }
}

/// A play command issued twice under one request id is one command.
pub proof fn law_play_is_idempotent(s: Seq<CommandView>, next: u64, request_id: Seq<char>)
    requires
        commands_ok(s, next),
        next < u64::MAX,
        command_index(s, request_id) is None,
    ensures
        ({
            let c = CommandView { sequence: (next + 1) as u64, request_id, kind: "play"@ };
            let t = appended(s, c);
            &&& command_index(t, request_id) is Some
            &&& t[command_index(t, request_id)->0] == c
        }),
{
    let c = CommandView { sequence: (next + 1) as u64, request_id, kind: "play"@ };
    let full = s.push(c);
    let t = appended(s, c);
    let e = if full.len() > MAX_PROBE_RECORDS { full.len() - MAX_PROBE_RECORDS } else { 0 };
    assert(t == full.skip(e));
    let last = t.len() - 1;
    assert(t[last] == c);
    assert(t[last].request_id == request_id);
    assert(exists|i: int| 0 <= i < t.len() && #[trigger] t[i].request_id == request_id);
    let w = choose|i: int| 0 <= i < t.len() && #[trigger] t[i].request_id == request_id;
    if w != last {
        assert(t[w] == full[w + e]);
        assert(full[w + e] == s[w + e]);
    }
}

} // verus!
