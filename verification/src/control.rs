//! The control surface: bounded command validation, per-session command
//! execution against the playback authority, canonical non-secret snapshots
//! and a bounded, replayable event journal.

use crate::ids::{is_opaque_token, new_opaque_token};
use crate::playback::{
    can_advance, execute_step, position_accepted, Command,
    CommandEnvelope, CommandError, CommandView, DisplayView, EnvelopeView, HandoffView, ItemView,
    PlaybackSession, PlaybackState, PlaybackView, TicketView, };
use crate::text::{
    all_ident_chars, all_ident_chars_exec, byte_len, decimal, decimal_string, is_ascii_digit,
    lemma_decimal_digits, lemma_decimal_injective, push_str,
};
use vstd::prelude::*;

verus! {

pub const MAX_CONTROL_BODY_BYTES: usize = 32768;

pub const DEFAULT_EVENT_LIMIT: usize = 256;

pub const MAX_REQUEST_ID_BYTES: usize = 128;

pub const MAX_DISPLAY_ID_BYTES: usize = 128;

#[derive(Clone, Debug, PartialEq, Eq)]
pub struct ControlItemSnapshot {
    pub item_id: String,
    pub item_revision: u64,
    pub media_generation: u64,
}

#[derive(Clone, Debug, PartialEq, Eq)]
pub struct ControlDisplaySnapshot {
    pub display_id: String,
    pub generation: u64,
}

#[derive(Clone, Debug, PartialEq, Eq)]
pub struct ControlHandoffSnapshot {
    pub transition_id: u64,
    pub item_id: String,
    pub item_revision: u64,
    pub from_display_id: String,
    pub from_generation: u64,
    pub target_display_id: String,
    pub candidate_generation: u64,
    pub candidate_position_ms: Option<u64>,
}

#[derive(Clone, Debug, PartialEq, Eq)]
pub struct ControlSnapshot {
    pub session_id: String,
    pub session_revision: u64,
    pub state: &'static str,
    pub current_item: ControlItemSnapshot,
    pub position_ms: u64,
    pub telemetry_sequence: u64,
    pub active_display: ControlDisplaySnapshot,
    pub handoff: Option<ControlHandoffSnapshot>,
}

#[derive(Clone, Copy, Debug, PartialEq, Eq, Structural)]
pub enum ControlEventKind {
    CommandAccepted,
    PositionTelemetry,
}

#[derive(Clone, Debug)]
pub struct ControlEvent {
    pub cursor: u64,
    pub kind: ControlEventKind,
    pub snapshot: ControlSnapshot,
}

#[derive(Clone, Debug)]
pub struct ControlEventsResponse {
    pub session_id: String,
    pub cursor: u64,
    pub events: Vec<ControlEvent>,
    pub snapshot_required: bool,
    pub reason: Option<&'static str>,
}

#[derive(Clone, Debug)]
pub struct ControlCommandResponse {
    pub request_id: String,
    pub status: &'static str,
    pub session_revision: u64,
    pub snapshot: ControlSnapshot,
    pub event_cursor: u64,
}

/// A display-owned position observation. The session and lease checks are
/// made by the display lease authority before it reaches the session.
pub struct DisplayPositionTelemetry<'a> {
    pub display_id: &'a str,
    pub display_generation: u64,
    pub item_id: &'a str,
    pub item_revision: u64,
    pub telemetry_sequence: u64,
    pub position_ms: u64,
}

#[derive(Clone, Debug)]
pub struct ControlErrorResponse {
    pub code: &'static str,
    pub message: &'static str,
    pub current_revision: Option<u64>,
    pub transition_id: Option<u64>,
}

#[derive(Clone, Debug)]
pub struct ControlCommandRequest {
    pub request_id: String,
    pub expected_session_revision: Option<u64>,
    pub command: ControlCommand,
}

#[derive(Clone, Debug)]
pub enum ControlCommand {
    Play,
    Pause,
    Seek { position_ms: u64 },
    Stop,
    BeginHandoff { target_display_id: String },
}

#[derive(Clone, Copy, Debug, PartialEq, Eq, Structural)]
pub enum ControlValidationError {
    RequestIdTooLong,
    RequestIdInvalid,
    DisplayIdTooLong,
    DisplayIdInvalid,
}

#[derive(Clone, Copy, Debug, PartialEq, Eq, Structural)]
pub enum ControlLookupError {
    NotFound,
}

#[derive(Clone, Copy, Debug, PartialEq, Eq, Structural)]
pub enum ControlCommandError {
    NotFound,
    Validation(ControlValidationError),
    Playback(CommandError),
}

// ---------------------------------------------------------------------------
// Model
// ---------------------------------------------------------------------------

pub struct HandoffSnapshotView {
    pub ticket: TicketView,
    pub candidate_position_ms: Option<u64>,
}

pub struct SnapshotView {
    pub session_id: Seq<char>,
    pub session_revision: u64,
    pub state: Seq<char>,
    pub item_id: Seq<char>,
    pub item_revision: u64,
    pub media_generation: u64,
    pub position_ms: u64,
    pub telemetry_sequence: u64,
    pub display: DisplayView,
    pub handoff: Option<HandoffSnapshotView>,
}

pub struct EventView {
    pub cursor: u64,
    pub kind: ControlEventKind,
    pub snapshot: SnapshotView,
}

/// One session: its playback authority and its event journal.
pub struct JournalView {
    pub playback: PlaybackView,
    pub next_cursor: u64,
    pub events: Seq<EventView>,
}

pub struct ControlServiceView {
    pub sessions: Map<Seq<char>, JournalView>,
    pub event_limit: usize,
}

pub open spec fn state_name(s: PlaybackState) -> Seq<char> {
    match s {
        PlaybackState::Playing => "playing"@,
        PlaybackState::Paused => "paused"@,
        PlaybackState::Stopped => "stopped"@,
    }
}

/// The canonical, non-secret snapshot of a session: it carries no resolved
/// media.
pub open spec fn snapshot_of(session_id: Seq<char>, v: PlaybackView) -> SnapshotView {
    SnapshotView {
        session_id,
        session_revision: v.session_revision,
        state: state_name(v.state),
        item_id: v.item.item_id,
        item_revision: v.item.item_revision,
        media_generation: v.item.media_generation,
        position_ms: v.position_ms,
        telemetry_sequence: v.telemetry_sequence,
        display: v.active_display,
        handoff: match v.handoff {
            Some(h) => Some(
                HandoffSnapshotView {
                    ticket: h.ticket,
                    candidate_position_ms: h.candidate_position_ms,
                },
            ),
            None => None,
        },
    }
}

impl View for ControlHandoffSnapshot {
    type V = HandoffSnapshotView;

    open spec fn view(&self) -> HandoffSnapshotView {
        HandoffSnapshotView {
            ticket: TicketView {
                transition_id: self.transition_id,
                item_id: self.item_id@,
                item_revision: self.item_revision,
                from_display_id: self.from_display_id@,
                from_generation: self.from_generation,
                target_display_id: self.target_display_id@,
                candidate_generation: self.candidate_generation,
            },
            candidate_position_ms: self.candidate_position_ms,
        }
    }
}

impl View for ControlSnapshot {
    type V = SnapshotView;

    open spec fn view(&self) -> SnapshotView {
        SnapshotView {
            session_id: self.session_id@,
            session_revision: self.session_revision,
            state: self.state@,
            item_id: self.current_item.item_id@,
            item_revision: self.current_item.item_revision,
            media_generation: self.current_item.media_generation,
            position_ms: self.position_ms,
            telemetry_sequence: self.telemetry_sequence,
            display: DisplayView {
                display_id: self.active_display.display_id@,
                generation: self.active_display.generation,
            },
            handoff: match self.handoff {
                Some(h) => Some(h@),
                None => None,
            },
        }
    }
}

impl View for ControlEvent {
    type V = EventView;

    open spec fn view(&self) -> EventView {
        EventView { cursor: self.cursor, kind: self.kind, snapshot: self.snapshot@ }
    }
}

pub open spec fn events_view(s: Seq<ControlEvent>) -> Seq<EventView> {
    s.map_values(|e: ControlEvent| e@)
}

/// The journal keeps at most `limit` events whose cursors are consecutive
/// and end at the session's cursor.
pub open spec fn journal_wf(j: JournalView, limit: nat) -> bool {
    &&& j.events.len() <= limit
    &&& j.events.len() <= j.next_cursor
    &&& forall|i: int|
        0 <= i < j.events.len() ==> #[trigger] j.events[i].cursor == j.next_cursor - j.events.len()
            + 1 + i
}

pub open spec fn journal_can_advance(j: JournalView) -> bool {
    can_advance(j.playback) && j.next_cursor < u64::MAX
}

/// Records one more event with the session's current snapshot, dropping the
/// oldest event when the journal is full.
pub open spec fn append_spec(
    j: JournalView,
    session_id: Seq<char>,
    kind: ControlEventKind,
    limit: nat,
) -> JournalView {
    let c = (j.next_cursor + 1) as u64;
    let evs = j.events.push(
        EventView { cursor: c, kind, snapshot: snapshot_of(session_id, j.playback) },
    );
    JournalView {
        next_cursor: c,
        events: if evs.len() > limit {
            evs.drop_first()
        } else {
            evs
        },
        ..j
    }
}

/// `x + 1`, held at the largest value.
pub open spec fn saturating_inc(x: u64) -> u64 {
    if x == u64::MAX {
        u64::MAX
    } else {
        (x + 1) as u64
    }
}

/// The cursor of the oldest event the journal still holds.
pub open spec fn oldest_cursor(j: JournalView) -> u64 {
    if j.events.len() == 0 {
        saturating_inc(j.next_cursor)
    } else {
        j.events[0].cursor
    }
}

/// Why a reader at cursor `after` must reload a snapshot, if it must.
pub open spec fn replay_refusal(j: JournalView, after: u64) -> Option<Seq<char>> {
    if after > j.next_cursor {
        Some("cursor_unknown"@)
    } else if saturating_inc(after) < oldest_cursor(j) {
        Some("cursor_expired"@)
    } else {
        None
    }
}

/// The events a reader at cursor `after` has not seen.
pub open spec fn events_after_spec(j: JournalView, after: u64) -> Seq<EventView> {
    j.events.filter(|e: EventView| e.cursor > after)
}

/// A reader at cursor `after` is given exactly the held events it has not
/// seen: every event replayed has a cursor strictly after `after` and is one
/// the journal holds, every held event after `after` is replayed, and they
/// come in the journal's order.
pub proof fn law_replay_gives_only_unseen_events(j: JournalView, after: u64)
    ensures
        forall|k: int|
            0 <= k < events_after_spec(j, after).len() ==> #[trigger] events_after_spec(j, after)[k].cursor
                > after,
        forall|k: int|
            0 <= k < events_after_spec(j, after).len() ==> j.events.contains(
                #[trigger] events_after_spec(j, after)[k],
            ),
        forall|i: int|
            0 <= i < j.events.len() && #[trigger] j.events[i].cursor > after ==> events_after_spec(
                j,
                after,
            ).contains(j.events[i]),
        events_after_spec(j, after).len() <= j.events.len(),
{
    let p = |e: EventView| e.cursor > after;
    assert forall|k: int| 0 <= k < events_after_spec(j, after).len() implies #[trigger] events_after_spec(
        j,
        after,
    )[k].cursor > after by {
        j.events.lemma_filter_pred(p, k);
    }
    assert forall|k: int| 0 <= k < events_after_spec(j, after).len() implies j.events.contains(
        #[trigger] events_after_spec(j, after)[k],
    ) by {
        assert(j.events.filter(p).contains(j.events.filter(p)[k]));
        j.events.lemma_filter_contains_rev(p, j.events.filter(p)[k]);
    }
    assert forall|i: int| 0 <= i < j.events.len() && #[trigger] j.events[i].cursor > after implies events_after_spec(
        j,
        after,
    ).contains(j.events[i]) by {
        j.events.lemma_filter_contains(p, i);
    }
    j.events.lemma_filter_len(p);
}

/// Which readers must reload a snapshot: a reader that is up to date is
/// never refused and is given nothing; a cursor the journal never reached
/// is unknown; a reader whose next event the journal has already dropped
/// has an expired cursor; any other reader is served from the journal.
pub proof fn law_replay_refusals(j: JournalView, after: u64, limit: nat)
    requires
        journal_wf(j, limit),
    ensures
        after == j.next_cursor ==> replay_refusal(j, after) is None && events_after_spec(j, after).len()
            == 0,
        after > j.next_cursor ==> replay_refusal(j, after) == Some("cursor_unknown"@),
        j.events.len() > 0 && after + 1 < j.events[0].cursor ==> replay_refusal(j, after) == Some(
            "cursor_expired"@,
        ),
        j.events.len() > 0 && j.events[0].cursor <= after + 1 && after <= j.next_cursor
            ==> replay_refusal(j, after) is None,
{
    if j.events.len() > 0 {
        assert(j.events[0].cursor == j.next_cursor - j.events.len() + 1);
    }
    if after == j.next_cursor {
        law_replay_gives_only_unseen_events(j, after);
        let e = events_after_spec(j, after);
        if e.len() > 0 {
            assert(j.events.contains(e[0]));
            let w = choose|w: int| 0 <= w < j.events.len() && j.events[w] == e[0];
            assert(j.events[w].cursor == j.next_cursor - j.events.len() + 1 + w);
        }
    }
}

pub open spec fn validation_code(e: ControlValidationError) -> Seq<char> {
    match e {
        ControlValidationError::RequestIdTooLong => "REQUEST_ID_TOO_LONG"@,
        ControlValidationError::RequestIdInvalid => "REQUEST_ID_INVALID"@,
        ControlValidationError::DisplayIdTooLong => "DISPLAY_ID_TOO_LONG"@,
        ControlValidationError::DisplayIdInvalid => "DISPLAY_ID_INVALID"@,
    }
}

pub open spec fn command_error_code(e: ControlCommandError) -> Seq<char> {
    match e {
        ControlCommandError::NotFound => "SESSION_NOT_FOUND"@,
        ControlCommandError::Validation(v) => validation_code(v),
        ControlCommandError::Playback(CommandError::RevisionConflict { .. }) => "REVISION_CONFLICT"@,
        ControlCommandError::Playback(CommandError::RequestIdMismatch) => "REQUEST_ID_MISMATCH"@,
        ControlCommandError::Playback(CommandError::HandoffInProgress { .. }) => "HANDOFF_IN_PROGRESS"@,
    }
}

/// The identifier rule of the control surface: non-empty, at most `max`
/// bytes, only identifier characters. An empty value or a bad character is
/// invalid; a long value is too long.
pub open spec fn identifier_problem(s: Seq<char>, max: nat) -> Option<bool> {
    if s.len() == 0 {
        Some(false)
    } else if byte_len(s) > max {
        Some(true)
    } else if !all_ident_chars(s) {
        Some(false)
    } else {
        None
    }
}

pub open spec fn request_validation(
    request_id: Seq<char>,
    command: CommandView,
) -> Option<ControlValidationError> {
    match identifier_problem(request_id, MAX_REQUEST_ID_BYTES as nat) {
        Some(true) => Some(ControlValidationError::RequestIdTooLong),
        Some(false) => Some(ControlValidationError::RequestIdInvalid),
        None => match command {
            CommandView::BeginHandoff(d) => match identifier_problem(d, MAX_DISPLAY_ID_BYTES as nat) {
                Some(true) => Some(ControlValidationError::DisplayIdTooLong),
                Some(false) => Some(ControlValidationError::DisplayIdInvalid),
                None => None,
            },
            _ => None,
        },
    }
}

impl View for ControlCommand {
    type V = CommandView;

    open spec fn view(&self) -> CommandView {
        match self {
            ControlCommand::Play => CommandView::Play,
            ControlCommand::Pause => CommandView::Pause,
            ControlCommand::Seek { position_ms } => CommandView::Seek(*position_ms),
            ControlCommand::Stop => CommandView::Stop,
            ControlCommand::BeginHandoff { target_display_id } => CommandView::BeginHandoff(
                target_display_id@,
            ),
        }
    }
}

pub open spec fn response_view(r: ControlCommandResponse) -> (Seq<char>, Seq<char>, u64, SnapshotView, u64) {
    (r.request_id@, r.status@, r.session_revision, r.snapshot@, r.event_cursor)
}


/// What a command does to one session's journal: the playback authority
/// executes the envelope, and a command accepted for the first time is
/// journalled.
pub open spec fn journal_after_command(
    j: JournalView,
    session_id: Seq<char>,
    e: EnvelopeView,
    limit: nat,
) -> JournalView {
    let (p, out) = execute_step(j.playback, e);
    let j2 = JournalView { playback: p, ..j };
    if !j.playback.records.contains_key(e.request_id) && out is Ok {
        append_spec(j2, session_id, ControlEventKind::CommandAccepted, limit)
    } else {
        j2
    }
}

/// A session journal after an accepted observation from the active display.
pub open spec fn after_display_telemetry(
    j: JournalView,
    session_id: Seq<char>,
    position_ms: u64,
    telemetry_sequence: u64,
    limit: nat,
) -> JournalView {
    append_spec(
        JournalView {
            playback: PlaybackView { position_ms, telemetry_sequence, ..j.playback },
            ..j
        },
        session_id,
        ControlEventKind::PositionTelemetry,
        limit,
    )
}

/// A session journal after an accepted observation from the handoff
/// candidate.
pub open spec fn after_candidate_telemetry(
    j: JournalView,
    session_id: Seq<char>,
    position_ms: u64,
    telemetry_sequence: u64,
    limit: nat,
) -> JournalView {
    append_spec(
        JournalView {
            playback: PlaybackView {
                handoff: Some(
                    HandoffView {
                        candidate_position_ms: Some(position_ms),
                        candidate_telemetry_sequence: telemetry_sequence,
                        ..j.playback.handoff->0
                    },
                ),
                ..j.playback
            },
            ..j
        },
        session_id,
        ControlEventKind::PositionTelemetry,
        limit,
    )
}

/// A candidate observation is heard when it comes from the handoff target at
/// its candidate generation, for the ticket's item, and is newer than the
/// last candidate observation.
pub open spec fn candidate_accepted(
    p: PlaybackView,
    display_id: Seq<char>,
    display_generation: u64,
    item_id: Seq<char>,
    item_revision: u64,
    telemetry_sequence: u64,
) -> bool {
    &&& p.handoff is Some
    &&& p.handoff->0.ticket.target_display_id == display_id
    &&& p.handoff->0.ticket.candidate_generation == display_generation
    &&& p.handoff->0.ticket.item_id == item_id
    &&& p.handoff->0.ticket.item_revision == item_revision
    &&& telemetry_sequence > p.handoff->0.candidate_telemetry_sequence
}

impl<'a> DisplayPositionTelemetry<'a> {
    pub open spec fn display_accepted(&self, p: PlaybackView) -> bool {
        &&& p.active_display.display_id == self.display_id@
        &&& p.active_display.generation == self.display_generation
        &&& position_accepted(p, self.item_id@, self.item_revision, self.telemetry_sequence)
    }

    pub open spec fn candidate_accepted(&self, p: PlaybackView) -> bool {
        candidate_accepted(
            p,
            self.display_id@,
            self.display_generation,
            self.item_id@,
            self.item_revision,
            self.telemetry_sequence,
        )
    }
}

// ---------------------------------------------------------------------------
// Validation and error responses
// ---------------------------------------------------------------------------

fn identifier_check(value: &str, max_bytes: usize) -> (r: Option<bool>)
    ensures
        r == identifier_problem(value@, max_bytes as nat),
{
    if value.is_empty() {
        return Some(false);
    }
    if value.as_bytes().len() > max_bytes {
        return Some(true);
    }
    if !all_ident_chars_exec(value) {
        return Some(false);
    }
    None
}

impl ControlCommand {
    fn validate(&self) -> (r: Result<(), ControlValidationError>)
        ensures
            r == (match self@ {
                CommandView::BeginHandoff(d) => match identifier_problem(d, MAX_DISPLAY_ID_BYTES as nat) {
                    Some(true) => Err(ControlValidationError::DisplayIdTooLong),
                    Some(false) => Err(ControlValidationError::DisplayIdInvalid),
                    None => Ok(()),
                },
                _ => Ok(()),
            }),
    {
        match self {
            ControlCommand::BeginHandoff { target_display_id } => {
                match identifier_check(target_display_id.as_str(), MAX_DISPLAY_ID_BYTES) {
                    Some(true) => Err(ControlValidationError::DisplayIdTooLong),
                    Some(false) => Err(ControlValidationError::DisplayIdInvalid),
                    None => Ok(()),
                }
            },
            _ => Ok(()),
        }
    }

    fn into_playback(self) -> (r: Command)
        ensures
            r@ == self@,
    {
        match self {
            ControlCommand::Play => Command::Play,
            ControlCommand::Pause => Command::Pause,
            ControlCommand::Seek { position_ms } => Command::Seek(position_ms),
            ControlCommand::Stop => Command::Stop,
            ControlCommand::BeginHandoff { target_display_id } => Command::BeginHandoff {
                target_display_id,
            },
        }
    }
}

impl ControlCommandRequest {
    fn validate(&self) -> (r: Result<(), ControlValidationError>)
        ensures
            r == (match request_validation(self.request_id@, self.command@) {
                Some(e) => Err(e),
                None => Ok(()),
            }),
    {
        match identifier_check(self.request_id.as_str(), MAX_REQUEST_ID_BYTES) {
            Some(true) => Err(ControlValidationError::RequestIdTooLong),
            Some(false) => Err(ControlValidationError::RequestIdInvalid),
            None => self.command.validate(),
        }
    }
}

impl ControlValidationError {
    pub fn response(&self) -> (r: ControlErrorResponse)
        ensures
            r.code@ == validation_code(*self),
            r.current_revision is None,
            r.transition_id is None,
    {
        match self {
            ControlValidationError::RequestIdTooLong => ControlErrorResponse {
                code: "REQUEST_ID_TOO_LONG",
                message: "request_id exceeds the maximum length",
                current_revision: None,
                transition_id: None,
            },
            ControlValidationError::RequestIdInvalid => ControlErrorResponse {
                code: "REQUEST_ID_INVALID",
                message: "request_id contains an unsupported character",
                current_revision: None,
                transition_id: None,
            },
            ControlValidationError::DisplayIdTooLong => ControlErrorResponse {
                code: "DISPLAY_ID_TOO_LONG",
                message: "display_id exceeds the maximum length",
                current_revision: None,
                transition_id: None,
            },
            ControlValidationError::DisplayIdInvalid => ControlErrorResponse {
                code: "DISPLAY_ID_INVALID",
                message: "display_id contains an unsupported character",
                current_revision: None,
                transition_id: None,
            },
        }
    }
}

/// The HTTP status a command error is answered with.
pub open spec fn command_error_status(e: ControlCommandError) -> u16 {
    match e {
        ControlCommandError::NotFound => 404,
        ControlCommandError::Validation(_) => 400,
        ControlCommandError::Playback(_) => 409,
    }
}

impl ControlCommandError {
    pub fn http_status(&self) -> (r: u16)
        ensures
            r == command_error_status(*self),
    {
        match self {
            ControlCommandError::NotFound => 404,
            ControlCommandError::Validation(_) => 400,
            ControlCommandError::Playback(_) => 409,
        }
    }

    pub fn response(&self) -> (r: ControlErrorResponse)
        ensures
            r.code@ == command_error_code(*self),
            r.current_revision == (match *self {
                ControlCommandError::Playback(CommandError::RevisionConflict { current_revision }) => Some(
                    current_revision,
                ),
                _ => None,
            }),
            r.transition_id == (match *self {
                ControlCommandError::Playback(CommandError::HandoffInProgress { transition_id }) => Some(
                    transition_id,
                ),
                _ => None,
            }),
    {
        match self {
            ControlCommandError::NotFound => ControlErrorResponse {
                code: "SESSION_NOT_FOUND",
                message: "session was not found",
                current_revision: None,
                transition_id: None,
            },
            ControlCommandError::Validation(error) => error.response(),
            ControlCommandError::Playback(CommandError::RevisionConflict { current_revision }) => {
                ControlErrorResponse {
                    code: "REVISION_CONFLICT",
                    message: "expected session revision is stale",
                    current_revision: Some(*current_revision),
                    transition_id: None,
                }
            },
            ControlCommandError::Playback(CommandError::RequestIdMismatch) => ControlErrorResponse {
                code: "REQUEST_ID_MISMATCH",
                message: "request_id was reused with a different command envelope",
                current_revision: None,
                transition_id: None,
            },
            ControlCommandError::Playback(CommandError::HandoffInProgress { transition_id }) => {
                ControlErrorResponse {
                    code: "HANDOFF_IN_PROGRESS",
                    message: "another handoff is already in progress",
                    current_revision: None,
                    transition_id: Some(*transition_id),
                }
            },
        }
    }
}

// ---------------------------------------------------------------------------
// Snapshots
// ---------------------------------------------------------------------------

fn state_label(s: PlaybackState) -> (r: &'static str)
    ensures
        r@ == state_name(s),
{
    match s {
        PlaybackState::Playing => "playing",
        PlaybackState::Paused => "paused",
        PlaybackState::Stopped => "stopped",
    }
}

fn snapshot_from_playback(session_id: &str, playback: &PlaybackSession) -> (r: ControlSnapshot)
    ensures
        r@ == snapshot_of(session_id@, playback@),
{
    let display = playback.active_display();
    let handoff = match playback.active_handoff() {
        Some(ticket) => Some(
            ControlHandoffSnapshot {
                transition_id: ticket.transition_id,
                item_id: ticket.item_id.clone(),
                item_revision: ticket.item_revision,
                from_display_id: ticket.from_display_id.clone(),
                from_generation: ticket.from_generation,
                target_display_id: ticket.target_display_id.clone(),
                candidate_generation: ticket.candidate_generation,
                candidate_position_ms: playback.candidate_position_ms(),
            },
        ),
        None => None,
    };
    ControlSnapshot {
        session_id: session_id.to_owned(),
        session_revision: playback.session_revision(),
        state: state_label(playback.state()),
        current_item: ControlItemSnapshot {
            item_id: playback.current_item_id().to_owned(),
            item_revision: playback.item_revision(),
            media_generation: playback.media_generation(),
        },
        position_ms: playback.position_ms(),
        telemetry_sequence: playback.telemetry_sequence(),
        active_display: ControlDisplaySnapshot {
            display_id: display.display_id.clone(),
            generation: display.generation,
        },
        handoff,
    }
}

// ---------------------------------------------------------------------------
// The service
// ---------------------------------------------------------------------------

#[derive(Debug)]
struct SessionRecord {
    session_id: String,
    playback: PlaybackSession,
    next_cursor: u64,
    events: Vec<ControlEvent>,
}

spec fn journal_of(r: SessionRecord) -> JournalView {
    JournalView { playback: r.playback@, next_cursor: r.next_cursor, events: events_view(r.events@) }
}

spec fn record_wf(r: SessionRecord, limit: nat, bound: nat) -> bool {
    &&& r.playback.wf()
    &&& journal_wf(journal_of(r), limit)
    &&& is_issued_below(r.session_id@, bound)
}

spec fn has_session(s: Seq<SessionRecord>, k: Seq<char>) -> bool {
    exists|i: int| 0 <= i < s.len() && #[trigger] s[i].session_id@ == k
}

spec fn sessions_map(s: Seq<SessionRecord>) -> Map<Seq<char>, JournalView> {
    Map::new(
        |k: Seq<char>| has_session(s, k),
        |k: Seq<char>|
            journal_of(s[choose|i: int| 0 <= i < s.len() && #[trigger] s[i].session_id@ == k]),
    )
}

spec fn ids_distinct(s: Seq<SessionRecord>) -> bool {
    forall|i: int, j: int|
        0 <= i < s.len() && 0 <= j < s.len() && i != j ==> #[trigger] s[i].session_id@
            != #[trigger] s[j].session_id@
}

proof fn lemma_sessions_lookup(s: Seq<SessionRecord>, i: int)
    requires
        ids_distinct(s),
        0 <= i < s.len(),
    ensures
        sessions_map(s).contains_key(s[i].session_id@),
        sessions_map(s)[s[i].session_id@] == journal_of(s[i]),
{
    let k = s[i].session_id@;
    assert(has_session(s, k));
    let j = choose|j: int| 0 <= j < s.len() && #[trigger] s[j].session_id@ == k;
    assert(j == i);
}

proof fn lemma_sessions_update(s: Seq<SessionRecord>, i: int, r: SessionRecord)
    requires
        ids_distinct(s),
        0 <= i < s.len(),
        r.session_id@ == s[i].session_id@,
    ensures
        ids_distinct(s.update(i, r)),
        sessions_map(s.update(i, r)) == sessions_map(s).insert(r.session_id@, journal_of(r)),
{
    let t = s.update(i, r);
    assert forall|a: int, b: int|
        0 <= a < t.len() && 0 <= b < t.len() && a != b implies #[trigger] t[a].session_id@
        != #[trigger] t[b].session_id@ by {
        assert(t[a].session_id@ == s[a].session_id@);
        assert(t[b].session_id@ == s[b].session_id@);
    }
    let m1 = sessions_map(t);
    let m2 = sessions_map(s).insert(r.session_id@, journal_of(r));
    assert forall|k: Seq<char>| m1.contains_key(k) <==> m2.contains_key(k) by {
        if has_session(t, k) {
            let a = choose|a: int| 0 <= a < t.len() && #[trigger] t[a].session_id@ == k;
            assert(s[a].session_id@ == k);
        }
        if has_session(s, k) {
            let a = choose|a: int| 0 <= a < s.len() && #[trigger] s[a].session_id@ == k;
            assert(t[a].session_id@ == k);
        }
    }
    assert forall|k: Seq<char>| #[trigger] m1.contains_key(k) implies m1[k] == m2[k] by {
        let a = choose|a: int| 0 <= a < t.len() && #[trigger] t[a].session_id@ == k;
        lemma_sessions_lookup(t, a);
        if a != i {
            assert(s[a] == t[a]);
            lemma_sessions_lookup(s, a);
        }
    }
    assert(m1 =~= m2);
}

proof fn lemma_sessions_push(s: Seq<SessionRecord>, r: SessionRecord)
    requires
        ids_distinct(s),
        !has_session(s, r.session_id@),
    ensures
        ids_distinct(s.push(r)),
        sessions_map(s.push(r)) == sessions_map(s).insert(r.session_id@, journal_of(r)),
{
    let t = s.push(r);
    assert forall|a: int, b: int|
        0 <= a < t.len() && 0 <= b < t.len() && a != b implies #[trigger] t[a].session_id@
        != #[trigger] t[b].session_id@ by {
        if a == s.len() {
            assert(s[b] == t[b]);
        } else if b == s.len() {
            assert(s[a] == t[a]);
        } else {
            assert(s[a] == t[a] && s[b] == t[b]);
        }
    }
    let m1 = sessions_map(t);
    let m2 = sessions_map(s).insert(r.session_id@, journal_of(r));
    assert forall|k: Seq<char>| m1.contains_key(k) <==> m2.contains_key(k) by {
        if has_session(t, k) {
            let a = choose|a: int| 0 <= a < t.len() && #[trigger] t[a].session_id@ == k;
            if a < s.len() {
                assert(s[a] == t[a]);
            }
        }
        if has_session(s, k) {
            let a = choose|a: int| 0 <= a < s.len() && #[trigger] s[a].session_id@ == k;
            assert(t[a] == s[a]);
        }
        if k == r.session_id@ {
            assert(t[s.len() as int] == r);
        }
    }
    assert forall|k: Seq<char>| #[trigger] m1.contains_key(k) implies m1[k] == m2[k] by {
        let a = choose|a: int| 0 <= a < t.len() && #[trigger] t[a].session_id@ == k;
        lemma_sessions_lookup(t, a);
        if a < s.len() {
            assert(s[a] == t[a]);
            lemma_sessions_lookup(s, a);
        }
    }
    assert(m1 =~= m2);
}

/// A session id issued by the service: `s-`, a decimal sequence number,
/// `-` and an opaque token.
pub open spec fn issued_id(k: nat, token: Seq<char>) -> Seq<char> {
    "s-"@ + decimal(k) + "-"@ + token
}

pub open spec fn is_issued_below(id: Seq<char>, bound: nat) -> bool {
    exists|k: nat, t: Seq<char>| k < bound && is_opaque_token(t) && id == issued_id(k, t)
}

proof fn lemma_issued_prefix(k: nat, t: Seq<char>)
    ensures
        issued_id(k, t).len() == 2 + decimal(k).len() + 1 + t.len(),
        forall|i: int| 0 <= i < decimal(k).len() ==> #[trigger] issued_id(k, t)[2 + i] == decimal(
            k,
        )[i],
        issued_id(k, t)[2 + decimal(k).len() as int] == '-',
{
    reveal_strlit("s-");
    reveal_strlit("-");
}

/// Issued ids with different sequence numbers differ.
proof fn lemma_issued_distinct(a: nat, ta: Seq<char>, b: nat, tb: Seq<char>)
    requires
        a != b,
    ensures
        issued_id(a, ta) != issued_id(b, tb),
{
    lemma_decimal_digits(a);
    lemma_decimal_digits(b);
    lemma_issued_prefix(a, ta);
    lemma_issued_prefix(b, tb);
    let x = issued_id(a, ta);
    let y = issued_id(b, tb);
    let da = decimal(a);
    let db = decimal(b);
    if x == y {
        if da.len() < db.len() {
            assert(x[2 + da.len() as int] == '-');
            assert(y[2 + da.len() as int] == db[da.len() as int]);
            assert(is_ascii_digit(db[da.len() as int]));
        } else if db.len() < da.len() {
            assert(y[2 + db.len() as int] == '-');
            assert(x[2 + db.len() as int] == da[db.len() as int]);
            assert(is_ascii_digit(da[db.len() as int]));
        } else {
            assert forall|i: int| 0 <= i < da.len() implies da[i] == db[i] by {
                assert(x[2 + i] == y[2 + i]);
            }
            assert(da =~= db);
            lemma_decimal_injective(a, b);
        }
    }
}

#[derive(Debug)]
pub struct ControlService {
    sessions: Vec<SessionRecord>,
    next_session_sequence: u64,
    event_limit: usize,
}

impl View for ControlService {
    type V = ControlServiceView;

    closed spec fn view(&self) -> ControlServiceView {
        ControlServiceView { sessions: sessions_map(self.sessions@), event_limit: self.event_limit }
    }
}

impl ControlService {
    pub closed spec fn wf(&self) -> bool {
        &&& self.event_limit > 0
        &&& ids_distinct(self.sessions@)
        &&& forall|i: int|
            0 <= i < self.sessions@.len() ==> record_wf(
                #[trigger] self.sessions@[i],
                self.event_limit as nat,
                self.next_session_sequence as nat,
            )
    }

    /// The session exists and all of its counters can advance.
    pub open spec fn can_advance_session(&self, id: Seq<char>) -> bool {
        self@.sessions.contains_key(id) ==> journal_can_advance(self@.sessions[id])
    }

    /// Another session can be created.
    pub closed spec fn can_create_session(&self) -> bool {
        self.next_session_sequence < u64::MAX
    }

    /// Every session id the service holds was issued by it: `s-`, a
    /// sequence number below the next one, `-` and an opaque token.
    pub proof fn lemma_session_ids_issued(&self, id: Seq<char>)
        requires
            self.wf(),
            self@.sessions.contains_key(id),
        ensures
            is_issued_below(id, self.session_sequence() as nat),
    {
        let a = choose|a: int|
            0 <= a < self.sessions@.len() && #[trigger] self.sessions@[a].session_id@ == id;
        assert(record_wf(self.sessions@[a], self.event_limit as nat, self.next_session_sequence as nat));
    }

    /// The sequence number the next created session will carry.
    pub closed spec fn session_sequence(&self) -> u64 {
        self.next_session_sequence
    }

    pub fn new(event_limit: usize) -> (s: Self)
        requires
            event_limit > 0,
        ensures
            s.wf(),
            s.can_create_session(),
            s.session_sequence() == 1,
            s@.event_limit == event_limit,
            s@.sessions == Map::<Seq<char>, JournalView>::empty(),
    {
        let s = ControlService { sessions: Vec::new(), next_session_sequence: 1, event_limit };
        assert(sessions_map(s.sessions@) =~= Map::<Seq<char>, JournalView>::empty());
        s
    }

    /// Trusted service hook that creates a session. Callers receive the
    /// opaque session id that the service chose.
    pub fn seed_test_session(&mut self, item_id: String, resolved_media: String, display_id: String) -> (id:
        String)
        requires
            old(self).wf(),
            old(self).can_create_session(),
        ensures
            final(self).wf(),
            !old(self)@.sessions.contains_key(id@),
            final(self)@.event_limit == old(self)@.event_limit,
            final(self)@.sessions == old(self)@.sessions.insert(
                id@,
                JournalView {
                    playback: PlaybackView {
                        session_revision: 0,
                        state: PlaybackState::Playing,
                        item: ItemView {
                            item_id: item_id@,
                            item_revision: 1,
                            resolved_media: resolved_media@,
                            media_generation: 0,
                        },
                        position_ms: 0,
                        telemetry_sequence: 0,
                        active_display: DisplayView { display_id: display_id@, generation: 1 },
                        handoff: None,
                        next_transition_id: 1,
                        next_display_generation: 2,
                        records: Map::empty(),
                    },
                    next_cursor: 0,
                    events: Seq::empty(),
                },
            ),
            final(self).session_sequence() == old(self).session_sequence() + 1,
            final(self).can_create_session() <==> final(self).session_sequence() < u64::MAX,
            exists|t: Seq<char>|
                is_opaque_token(t) && id@ == #[trigger] issued_id(old(self).session_sequence() as nat, t),
    {
        let sequence = self.next_session_sequence;
        let token = new_opaque_token();
        let mut id = String::new();
        push_str(&mut id, "s-");
        let digits = decimal_string(sequence);
        push_str(&mut id, digits.as_str());
        push_str(&mut id, "-");
        push_str(&mut id, token.as_str());
        proof {
            reveal_strlit("s-");
            reveal_strlit("-");
            assert(id@ =~= issued_id(sequence as nat, token@));
            if has_session(self.sessions@, id@) {
                let a = choose|a: int|
                    0 <= a < self.sessions@.len() && #[trigger] self.sessions@[a].session_id@ == id@;
                let r = self.sessions@[a];
                assert(is_issued_below(r.session_id@, sequence as nat));
                let (k, t) = choose|k: nat, t: Seq<char>|
                    k < sequence && is_opaque_token(t) && r.session_id@ == issued_id(k, t);
                lemma_issued_distinct(k, t, sequence as nat, token@);
            }
        }
        let playback = PlaybackSession::new(item_id, resolved_media, display_id);
        let record = SessionRecord {
            session_id: id.clone(),
            playback,
            next_cursor: 0,
            events: Vec::new(),
        };
        proof {
            assert(events_view(record.events@) =~= Seq::<EventView>::empty());
            lemma_sessions_push(self.sessions@, record);
        }
        let ghost old_sessions = self.sessions@;
        self.sessions.push(record);
        self.next_session_sequence = sequence + 1;
        proof {
            assert forall|i: int| 0 <= i < self.sessions@.len() implies record_wf(
                #[trigger] self.sessions@[i],
                self.event_limit as nat,
                self.next_session_sequence as nat,
            ) by {
                let r = self.sessions@[i];
                if i < old_sessions.len() {
                    assert(r == old_sessions[i]);
                    let (k, t) = choose|k: nat, t: Seq<char>|
                        k < sequence && is_opaque_token(t) && r.session_id@ == issued_id(k, t);
                    assert(k < self.next_session_sequence);
                } else {
                    assert(r == record);
                    assert(is_opaque_token(token@));
                    assert(r.session_id@ == issued_id(sequence as nat, token@));
                }
            }
            assert(is_opaque_token(token@) && id@ == issued_id(old(self).session_sequence() as nat, token@));
        }
        id
    }

    fn find_session(&self, session_id: &str) -> (r: Option<usize>)
        requires
            ids_distinct(self.sessions@),
        ensures
            r is None ==> !self@.sessions.contains_key(session_id@),
            r is Some ==> r->0 < self.sessions@.len() && self.sessions@[r->0 as int].session_id@
                == session_id@ && self@.sessions.contains_key(session_id@)
                && self@.sessions[session_id@] == journal_of(self.sessions@[r->0 as int]),
    {
        let mut i: usize = 0;
        while i < self.sessions.len()
            invariant
                i <= self.sessions@.len(),
                ids_distinct(self.sessions@),
                forall|j: int| 0 <= j < i ==> self.sessions@[j].session_id@ != session_id@,
            decreases self.sessions@.len() - i,
        {
            if crate::playback::str_eq(self.sessions[i].session_id.as_str(), session_id) {
                proof {
                    lemma_sessions_lookup(self.sessions@, i as int);
                }
                return Some(i);
            }
            i = i + 1;
        }
        proof {
            if has_session(self.sessions@, session_id@) {
                let j = choose|j: int|
                    0 <= j < self.sessions@.len() && #[trigger] self.sessions@[j].session_id@
                        == session_id@;
                assert(self.sessions@[j].session_id@ != session_id@);
            }
        }
        None
    }

    pub fn snapshot(&self, session_id: &str) -> (r: Result<ControlSnapshot, ControlLookupError>)
        requires
            self.wf(),
        ensures
            r is Ok == self@.sessions.contains_key(session_id@),
            r is Ok ==> r->Ok_0@ == snapshot_of(
                session_id@,
                self@.sessions[session_id@].playback,
            ),
    {
        match self.find_session(session_id) {
            Some(i) => Ok(snapshot_from_playback(session_id, &self.sessions[i].playback)),
            None => Err(ControlLookupError::NotFound),
        }
    }

    /// The snapshot of a session whose active display is `display_id`.
    pub fn snapshot_for_active_display(&self, display_id: &str) -> (r: Result<
        ControlSnapshot,
        ControlLookupError,
    >)
        requires
            self.wf(),
        ensures
            r is Err ==> forall|k: Seq<char>| #[trigger]
                self@.sessions.contains_key(k) ==> self@.sessions[k].playback.active_display.display_id
                    != display_id@,
            r is Ok ==> {
                let k = r->Ok_0.session_id@;
                &&& self@.sessions.contains_key(k)
                &&& self@.sessions[k].playback.active_display.display_id == display_id@
                &&& r->Ok_0@ == snapshot_of(k, self@.sessions[k].playback)
            },
    {
        let mut i: usize = 0;
        while i < self.sessions.len()
            invariant
                self.wf(),
                i <= self.sessions@.len(),
                forall|j: int|
                    0 <= j < i ==> self.sessions@[j].playback@.active_display.display_id
                        != display_id@,
            decreases self.sessions@.len() - i,
        {
            let record = &self.sessions[i];
            if crate::playback::str_eq(
                record.playback.active_display().display_id.as_str(),
                display_id,
            ) {
                proof {
                    lemma_sessions_lookup(self.sessions@, i as int);
                }
                return Ok(snapshot_from_playback(record.session_id.as_str(), &record.playback));
            }
            i = i + 1;
        }
        proof {
            assert forall|k: Seq<char>| #[trigger]
                self@.sessions.contains_key(k) implies self@.sessions[k].playback.active_display.display_id
                != display_id@ by {
                let j = choose|j: int|
                    0 <= j < self.sessions@.len() && #[trigger] self.sessions@[j].session_id@ == k;
                lemma_sessions_lookup(self.sessions@, j);
            }
        }
        Err(ControlLookupError::NotFound)
    }

    pub fn events_after(&self, session_id: &str, after: u64) -> (r: Result<
        ControlEventsResponse,
        ControlLookupError,
    >)
        requires
            self.wf(),
        ensures
            r is Ok == self@.sessions.contains_key(session_id@),
            r is Ok ==> {
                let j = self@.sessions[session_id@];
                let resp = r->Ok_0;
                &&& resp.session_id@ == session_id@
                &&& resp.cursor == j.next_cursor
                &&& resp.snapshot_required == replay_refusal(j, after) is Some
                &&& (match resp.reason {
                    Some(s) => replay_refusal(j, after) == Some(s@),
                    None => replay_refusal(j, after) is None,
                })
                &&& events_view(resp.events@) == if replay_refusal(j, after) is Some {
                    Seq::<EventView>::empty()
                } else {
                    events_after_spec(j, after)
                }
            },
    {
        let i = match self.find_session(session_id) {
            Some(i) => i,
            None => {
                return Err(ControlLookupError::NotFound);
            },
        };
        let record = &self.sessions[i];
        proof {
            assert(record_wf(self.sessions@[i as int], self.event_limit as nat, self.next_session_sequence as nat));
        }
        let ghost j = journal_of(*record);
        let oldest = if record.events.len() == 0 {
            if record.next_cursor == u64::MAX {
                u64::MAX
            } else {
                record.next_cursor + 1
            }
        } else {
            record.events[0].cursor
        };
        let sat_after = if after == u64::MAX {
            u64::MAX
        } else {
            after + 1
        };
        let (snapshot_required, reason): (bool, Option<&'static str>) = if after
            > record.next_cursor {
            (true, Some("cursor_unknown"))
        } else if sat_after < oldest {
            (true, Some("cursor_expired"))
        } else {
            (false, None)
        };
        let mut events: Vec<ControlEvent> = Vec::new();
        if !snapshot_required {
            proof {
                reveal(Seq::filter);
                assert(events_view(record.events@).subrange(0, 0).len() == 0);
            }
            let mut k: usize = 0;
            while k < record.events.len()
                invariant
                    j == journal_of(*record),
                    k <= record.events@.len(),
                    events_view(events@) == events_view(record.events@).subrange(0, k as int).filter(
                        |e: EventView| e.cursor > after,
                    ),
                decreases record.events@.len() - k,
            {
                let ghost prefix = events_view(record.events@).subrange(0, k as int);
                proof {
                    assert(events_view(record.events@).subrange(0, k + 1) =~= prefix.push(
                        events_view(record.events@)[k as int],
                    ));
                    reveal(Seq::filter);
                    assert(prefix.push(events_view(record.events@)[k as int]).drop_last() =~= prefix);
                }
                let ghost before = events@;
                if record.events[k].cursor > after {
                    let e = record.events[k].clone_event();
                    events.push(e);
                    assert(events_view(events@) =~= events_view(before).push(e@));
                }
                k = k + 1;
            }
            assert(events_view(record.events@).subrange(0, record.events@.len() as int)
                =~= events_view(record.events@));
        }
        proof {
            reveal_strlit("cursor_unknown");
            reveal_strlit("cursor_expired");
        }
        Ok(
            ControlEventsResponse {
                session_id: session_id.to_owned(),
                cursor: record.next_cursor,
                events,
                snapshot_required,
                reason,
            },
        )
    }
}


fn append_event(record: &mut SessionRecord, kind: ControlEventKind, event_limit: usize)
    requires
        old(record).next_cursor < u64::MAX,
        event_limit > 0,
        journal_wf(journal_of(*old(record)), event_limit as nat),
    ensures
        journal_of(*final(record)) == append_spec(
            journal_of(*old(record)),
            old(record).session_id@,
            kind,
            event_limit as nat,
        ),
        journal_wf(journal_of(*final(record)), event_limit as nat),
        final(record).session_id == old(record).session_id,
        final(record).playback == old(record).playback,
{
    let ghost j = journal_of(*record);
    record.next_cursor = record.next_cursor + 1;
    let snapshot = snapshot_from_playback(record.session_id.as_str(), &record.playback);
    let event = ControlEvent { cursor: record.next_cursor, kind, snapshot };
    let ghost before = record.events@;
    record.events.push(event);
    assert(events_view(record.events@) =~= events_view(before).push(event@));
    if record.events.len() > event_limit {
        let ghost pushed = record.events@;
        record.events.remove(0);
        assert(events_view(record.events@) =~= events_view(pushed).drop_first());
    }
    proof {
        let a = append_spec(j, record.session_id@, kind, event_limit as nat);
        assert(journal_of(*record) == a);
        assert forall|i: int| 0 <= i < a.events.len() implies #[trigger] a.events[i].cursor
            == a.next_cursor - a.events.len() + 1 + i by {
            let evs = j.events.push(
                EventView {
                    cursor: a.next_cursor,
                    kind,
                    snapshot: snapshot_of(record.session_id@, j.playback),
                },
            );
            if evs.len() > event_limit {
                assert(a.events[i] == evs[i + 1]);
            } else {
                assert(a.events[i] == evs[i]);
            }
        }
    }
}

proof fn lemma_replace_record(
    s: Seq<SessionRecord>,
    i: int,
    r: SessionRecord,
    limit: nat,
    bound: nat,
)
    requires
        ids_distinct(s),
        0 <= i < s.len(),
        r.session_id == s[i].session_id,
        forall|k: int| 0 <= k < s.len() ==> record_wf(#[trigger] s[k], limit, bound),
        r.playback.wf(),
        journal_wf(journal_of(r), limit),
    ensures
        ids_distinct(s.update(i, r)),
        forall|k: int| 0 <= k < s.len() ==> record_wf(#[trigger] s.update(i, r)[k], limit, bound),
        sessions_map(s.update(i, r)) == sessions_map(s).insert(r.session_id@, journal_of(r)),
{
    lemma_sessions_update(s, i, r);
    assert(record_wf(s[i], limit, bound));
    assert forall|k: int| 0 <= k < s.len() implies record_wf(
        #[trigger] s.update(i, r)[k],
        limit,
        bound,
    ) by {
        if k == i {
            assert(s.update(i, r)[k] == r);
        } else {
            assert(s.update(i, r)[k] == s[k]);
        }
    }
}

proof fn lemma_same_journal(s: Seq<SessionRecord>, i: int, r: SessionRecord)
    requires
        ids_distinct(s),
        0 <= i < s.len(),
        r.session_id == s[i].session_id,
        journal_of(r) == journal_of(s[i]),
    ensures
        sessions_map(s.update(i, r)) == sessions_map(s),
{
    lemma_sessions_update(s, i, r);
    lemma_sessions_lookup(s, i);
    assert(sessions_map(s).insert(r.session_id@, journal_of(r)) =~= sessions_map(s));
}

impl ControlService {
    pub fn execute_command(&mut self, session_id: &str, request: ControlCommandRequest) -> (r: Result<
        ControlCommandResponse,
        ControlCommandError,
    >)
        requires
            old(self).wf(),
            old(self).can_advance_session(session_id@),
        ensures
            final(self).wf(),
            final(self)@.event_limit == old(self)@.event_limit,
            final(self).session_sequence() == old(self).session_sequence(),
            ({
                let e = EnvelopeView {
                    request_id: request.request_id@,
                    expected_session_revision: request.expected_session_revision,
                    command: request.command@,
                };
                match request_validation(request.request_id@, request.command@) {
                    Some(v) => r == Err::<ControlCommandResponse, ControlCommandError>(
                        ControlCommandError::Validation(v),
                    ) && final(self)@ == old(self)@,
                    None => if !old(self)@.sessions.contains_key(session_id@) {
                        r == Err::<ControlCommandResponse, ControlCommandError>(
                            ControlCommandError::NotFound,
                        ) && final(self)@ == old(self)@
                    } else {
                        let j = old(self)@.sessions[session_id@];
                        let (p, out) = execute_step(j.playback, e);
                        let j2 = journal_after_command(
                            j,
                            session_id@,
                            e,
                            old(self)@.event_limit as nat,
                        );
                        &&& final(self)@.sessions == old(self)@.sessions.insert(session_id@, j2)
                        &&& match out {
                            Ok(res) => r is Ok && response_view(r->Ok_0) == (
                                res.request_id,
                                "accepted"@,
                                res.session_revision,
                                snapshot_of(session_id@, p),
                                j2.next_cursor,
                            ),
                            Err(err) => r == Err::<ControlCommandResponse, ControlCommandError>(
                                ControlCommandError::Playback(err),
                            ),
                        }
                    },
                }
            }),
    {
        match request.validate() {
            Ok(()) => {},
            Err(e) => {
                return Err(ControlCommandError::Validation(e));
            },
        }
        let i = match self.find_session(session_id) {
            Some(i) => i,
            None => {
                return Err(ControlCommandError::NotFound);
            },
        };
        let ghost old_sessions = self.sessions@;
        let ghost limit = self.event_limit as nat;
        let ghost bound = self.next_session_sequence as nat;
        proof {
            assert(record_wf(old_sessions[i as int], limit, bound));
        }
        let event_limit = self.event_limit;
        let envelope = CommandEnvelope {
            request_id: request.request_id,
            expected_session_revision: request.expected_session_revision,
            command: request.command.into_playback(),
        };
        let record = &mut self.sessions[i];
        let is_replay = record.playback.has_request_id(&envelope.request_id);
        let result = record.playback.execute(envelope);
        let accepted = match &result {
            Ok(_) => true,
            Err(_) => false,
        };
        if accepted && !is_replay {
            append_event(record, ControlEventKind::CommandAccepted, event_limit);
        }
        let snapshot = snapshot_from_playback(session_id, &record.playback);
        let event_cursor = record.next_cursor;
        proof {
            lemma_replace_record(old_sessions, i as int, *record, limit, bound);
        }
        match result {
            Ok(res) => {
                proof {
                    reveal_strlit("accepted");
                }
                Ok(
                    ControlCommandResponse {
                        request_id: res.request_id,
                        status: "accepted",
                        session_revision: res.session_revision,
                        snapshot,
                        event_cursor,
                    },
                )
            },
            Err(e) => Err(ControlCommandError::Playback(e)),
        }
    }

    /// Trusted telemetry hook. Invalid or stale observations are refused by
    /// the playback authority and create no event.
    pub fn apply_position_telemetry(
        &mut self,
        session_id: &str,
        item_id: &str,
        item_revision: u64,
        telemetry_sequence: u64,
        position_ms: u64,
    ) -> (r: Result<bool, ControlLookupError>)
        requires
            old(self).wf(),
            old(self).can_advance_session(session_id@),
        ensures
            final(self).wf(),
            final(self)@.event_limit == old(self)@.event_limit,
            final(self).session_sequence() == old(self).session_sequence(),
            r is Ok == old(self)@.sessions.contains_key(session_id@),
            r is Err ==> final(self)@ == old(self)@,
            r is Ok ==> {
                let j = old(self)@.sessions[session_id@];
                let ok = position_accepted(j.playback, item_id@, item_revision, telemetry_sequence);
                &&& r->Ok_0 == ok
                &&& ok ==> final(self)@.sessions == old(self)@.sessions.insert(
                    session_id@,
                    after_display_telemetry(
                        j,
                        session_id@,
                        position_ms,
                        telemetry_sequence,
                        old(self)@.event_limit as nat,
                    ),
                )
                &&& !ok ==> final(self)@ == old(self)@
            },
    {
        let i = match self.find_session(session_id) {
            Some(i) => i,
            None => {
                return Err(ControlLookupError::NotFound);
            },
        };
        let ghost old_sessions = self.sessions@;
        let ghost limit = self.event_limit as nat;
        let ghost bound = self.next_session_sequence as nat;
        proof {
            assert(record_wf(old_sessions[i as int], limit, bound));
        }
        let event_limit = self.event_limit;
        let record = &mut self.sessions[i];
        let accepted = record.playback.apply_position_callback(
            item_id,
            item_revision,
            telemetry_sequence,
            position_ms,
        );
        if accepted {
            append_event(record, ControlEventKind::PositionTelemetry, event_limit);
        }
        proof {
            lemma_replace_record(old_sessions, i as int, *record, limit, bound);
            if !accepted {
                lemma_same_journal(old_sessions, i as int, *record);
            }
        }
        Ok(accepted)
    }

    /// Trusted display callback hook: the playback authority stays the judge
    /// of the active display and its generation.
    pub fn apply_display_position_telemetry(
        &mut self,
        session_id: &str,
        telemetry: DisplayPositionTelemetry<'_>,
    ) -> (r: Result<bool, ControlLookupError>)
        requires
            old(self).wf(),
            old(self).can_advance_session(session_id@),
        ensures
            final(self).wf(),
            final(self)@.event_limit == old(self)@.event_limit,
            final(self).session_sequence() == old(self).session_sequence(),
            r is Ok == old(self)@.sessions.contains_key(session_id@),
            r is Err ==> final(self)@ == old(self)@,
            r is Ok ==> {
                let j = old(self)@.sessions[session_id@];
                let ok = telemetry.display_accepted(j.playback);
                &&& r->Ok_0 == ok
                &&& ok ==> final(self)@.sessions == old(self)@.sessions.insert(
                    session_id@,
                    after_display_telemetry(
                        j,
                        session_id@,
                        telemetry.position_ms,
                        telemetry.telemetry_sequence,
                        old(self)@.event_limit as nat,
                    ),
                )
                &&& !ok ==> final(self)@ == old(self)@
            },
    {
        let i = match self.find_session(session_id) {
            Some(i) => i,
            None => {
                return Err(ControlLookupError::NotFound);
            },
        };
        let ghost old_sessions = self.sessions@;
        let ghost limit = self.event_limit as nat;
        let ghost bound = self.next_session_sequence as nat;
        proof {
            assert(record_wf(old_sessions[i as int], limit, bound));
        }
        let event_limit = self.event_limit;
        let record = &mut self.sessions[i];
        let accepted = record.playback.apply_display_position_callback(
            telemetry.display_id,
            telemetry.display_generation,
            telemetry.item_id,
            telemetry.item_revision,
            telemetry.telemetry_sequence,
            telemetry.position_ms,
        );
        if accepted {
            append_event(record, ControlEventKind::PositionTelemetry, event_limit);
        }
        proof {
            lemma_replace_record(old_sessions, i as int, *record, limit, bound);
            if !accepted {
                lemma_same_journal(old_sessions, i as int, *record);
            }
        }
        Ok(accepted)
    }

    /// Trusted handoff-candidate hook. It records only the candidate
    /// observation; it cannot commit the active display, and candidate
    /// sequences are local to the handoff.
    pub fn apply_candidate_position_telemetry(
        &mut self,
        session_id: &str,
        telemetry: DisplayPositionTelemetry<'_>,
    ) -> (r: Result<bool, ControlLookupError>)
        requires
            old(self).wf(),
            old(self).can_advance_session(session_id@),
        ensures
            final(self).wf(),
            final(self)@.event_limit == old(self)@.event_limit,
            final(self).session_sequence() == old(self).session_sequence(),
            r is Ok == old(self)@.sessions.contains_key(session_id@),
            r is Err ==> final(self)@ == old(self)@,
            r is Ok ==> {
                let j = old(self)@.sessions[session_id@];
                let ok = telemetry.candidate_accepted(j.playback);
                &&& r->Ok_0 == ok
                &&& ok ==> final(self)@.sessions == old(self)@.sessions.insert(
                    session_id@,
                    after_candidate_telemetry(
                        j,
                        session_id@,
                        telemetry.position_ms,
                        telemetry.telemetry_sequence,
                        old(self)@.event_limit as nat,
                    ),
                )
                &&& !ok ==> final(self)@ == old(self)@
            },
    {
        let i = match self.find_session(session_id) {
            Some(i) => i,
            None => {
                return Err(ControlLookupError::NotFound);
            },
        };
        let ghost old_sessions = self.sessions@;
        let ghost limit = self.event_limit as nat;
        let ghost bound = self.next_session_sequence as nat;
        proof {
            assert(record_wf(old_sessions[i as int], limit, bound));
        }
        let event_limit = self.event_limit;
        let record = &mut self.sessions[i];
        proof {
            record.playback.lemma_wf_model();
        }
        let ticket = match record.playback.active_handoff() {
            Some(t) => crate::playback::clone_ticket_pub(t),
            None => {
                proof {
                    assert(old_sessions.update(i as int, *record) =~= old_sessions);
                    lemma_replace_record(old_sessions, i as int, *record, limit, bound);
                }
                return Ok(false);
            },
        };
        if !crate::playback::str_eq(ticket.target_display_id.as_str(), telemetry.display_id)
            || ticket.candidate_generation != telemetry.display_generation
            || !crate::playback::str_eq(ticket.item_id.as_str(), telemetry.item_id)
            || ticket.item_revision != telemetry.item_revision {
            proof {
                lemma_replace_record(old_sessions, i as int, *record, limit, bound);
                lemma_same_journal(old_sessions, i as int, *record);
            }
            return Ok(false);
        }
        let accepted = record.playback.apply_candidate_callback(
            &ticket,
            telemetry.telemetry_sequence,
            telemetry.position_ms,
        );
        if accepted {
            append_event(record, ControlEventKind::PositionTelemetry, event_limit);
        }
        proof {
            lemma_replace_record(old_sessions, i as int, *record, limit, bound);
            if !accepted {
                lemma_same_journal(old_sessions, i as int, *record);
            }
        }
        Ok(accepted)
    }
}

impl ControlEvent {
    fn clone_event(&self) -> (r: ControlEvent)
        ensures
            r@ == self@,
    {
        ControlEvent { cursor: self.cursor, kind: self.kind, snapshot: self.snapshot.clone_snapshot() }
    }
}

impl ControlSnapshot {
    pub fn clone_snapshot(&self) -> (r: ControlSnapshot)
        ensures
            r@ == self@,
    {
        ControlSnapshot {
            session_id: self.session_id.clone(),
            session_revision: self.session_revision,
            state: self.state,
            current_item: ControlItemSnapshot {
                item_id: self.current_item.item_id.clone(),
                item_revision: self.current_item.item_revision,
                media_generation: self.current_item.media_generation,
            },
            position_ms: self.position_ms,
            telemetry_sequence: self.telemetry_sequence,
            active_display: ControlDisplaySnapshot {
                display_id: self.active_display.display_id.clone(),
                generation: self.active_display.generation,
            },
            handoff: match &self.handoff {
                Some(h) => Some(
                    ControlHandoffSnapshot {
                        transition_id: h.transition_id,
                        item_id: h.item_id.clone(),
                        item_revision: h.item_revision,
                        from_display_id: h.from_display_id.clone(),
                        from_generation: h.from_generation,
                        target_display_id: h.target_display_id.clone(),
                        candidate_generation: h.candidate_generation,
                        candidate_position_ms: h.candidate_position_ms,
                    },
                ),
                None => None,
            },
        }
    }
}

} // verus!

verus! {

impl Default for ControlService {
    fn default() -> (s: Self)
        ensures
            s.wf(),
            s.can_create_session(),
            s.session_sequence() == 1,
            s@.event_limit == DEFAULT_EVENT_LIMIT,
            s@.sessions == Map::<Seq<char>, JournalView>::empty(),
    {
        ControlService::new(DEFAULT_EVENT_LIMIT)
    }
}

} // verus!

verus! {

impl ControlService {
    /// Whether the session's counters can all advance once more (true for an
    /// unknown session, which a command then reports as not found).
    pub fn session_can_advance(&self, session_id: &str) -> (r: bool)
        requires
            self.wf(),
        ensures
            r == self.can_advance_session(session_id@),
    {
        match self.find_session(session_id) {
            None => true,
            Some(i) => self.sessions[i].playback.counters_can_advance() && self.sessions[i].next_cursor
                < u64::MAX,
        }
    }
}

} // verus!
