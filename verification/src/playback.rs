//! The playback session authority.
//!
//! A `PlaybackSession` owns the session revision, the current item, the
//! observed position, the active display and any handoff in progress.
//! Commands are idempotent per request id and guarded by an optional
//! compare-and-swap on the session revision.

use vstd::prelude::*;

verus! {

#[derive(Clone, Copy, Debug, PartialEq, Eq, Structural)]
pub enum PlaybackState {
    Playing,
    Paused,
    Stopped,
}

#[derive(Clone, Debug)]
pub struct PlaybackItem {
    pub item_id: String,
    pub item_revision: u64,
    pub resolved_media: String,
    pub media_generation: u64,
}

#[derive(Clone, Debug)]
pub struct DisplayAuthority {
    pub display_id: String,
    pub generation: u64,
}

#[derive(Clone, Debug)]
pub struct MediaRefreshTicket {
    pub item_id: String,
    pub item_revision: u64,
    pub generation: u64,
}

#[derive(Clone, Debug)]
pub struct HandoffTicket {
    pub transition_id: u64,
    pub item_id: String,
    pub item_revision: u64,
    pub from_display_id: String,
    pub from_generation: u64,
    pub target_display_id: String,
    pub candidate_generation: u64,
}

#[derive(Clone, Debug)]
pub enum Command {
    Play,
    Pause,
    Seek(u64),
    Stop,
    BeginHandoff { target_display_id: String },
}

#[derive(Clone, Debug)]
pub struct CommandEnvelope {
    pub request_id: String,
    pub expected_session_revision: Option<u64>,
    pub command: Command,
}

#[derive(Clone, Debug)]
pub struct CommandResult {
    pub request_id: String,
    pub session_revision: u64,
    pub transition: Option<HandoffTicket>,
}

#[derive(Clone, Copy, Debug, PartialEq, Eq, Structural)]
pub enum CommandError {
    RevisionConflict { current_revision: u64 },
    RequestIdMismatch,
    HandoffInProgress { transition_id: u64 },
}

// ---------------------------------------------------------------------------
// Mathematical model
// ---------------------------------------------------------------------------

pub struct ItemView {
    pub item_id: Seq<char>,
    pub item_revision: u64,
    pub resolved_media: Seq<char>,
    pub media_generation: u64,
}

pub struct DisplayView {
    pub display_id: Seq<char>,
    pub generation: u64,
}

pub struct TicketView {
    pub transition_id: u64,
    pub item_id: Seq<char>,
    pub item_revision: u64,
    pub from_display_id: Seq<char>,
    pub from_generation: u64,
    pub target_display_id: Seq<char>,
    pub candidate_generation: u64,
}

pub struct RefreshTicketView {
    pub item_id: Seq<char>,
    pub item_revision: u64,
    pub generation: u64,
}

pub enum CommandView {
    Play,
    Pause,
    Seek(u64),
    Stop,
    BeginHandoff(Seq<char>),
}

pub struct EnvelopeView {
    pub request_id: Seq<char>,
    pub expected_session_revision: Option<u64>,
    pub command: CommandView,
}

pub struct ResultView {
    pub request_id: Seq<char>,
    pub session_revision: u64,
    pub transition: Option<TicketView>,
}

pub struct HandoffView {
    pub ticket: TicketView,
    pub candidate_position_ms: Option<u64>,
    pub candidate_telemetry_sequence: u64,
}

pub struct RecordView {
    pub expected_session_revision: Option<u64>,
    pub command: CommandView,
    pub outcome: Result<ResultView, CommandError>,
}

/// The abstract state of a playback session.
pub struct PlaybackView {
    pub session_revision: u64,
    pub state: PlaybackState,
    pub item: ItemView,
    pub position_ms: u64,
    pub telemetry_sequence: u64,
    pub active_display: DisplayView,
    pub handoff: Option<HandoffView>,
    pub next_transition_id: u64,
    pub next_display_generation: u64,
    pub records: Map<Seq<char>, RecordView>,
}

impl View for PlaybackItem {
    type V = ItemView;

    open spec fn view(&self) -> ItemView {
        ItemView {
            item_id: self.item_id@,
            item_revision: self.item_revision,
            resolved_media: self.resolved_media@,
            media_generation: self.media_generation,
        }
    }
}

impl View for DisplayAuthority {
    type V = DisplayView;

    open spec fn view(&self) -> DisplayView {
        DisplayView { display_id: self.display_id@, generation: self.generation }
    }
}

impl View for HandoffTicket {
    type V = TicketView;

    open spec fn view(&self) -> TicketView {
        TicketView {
            transition_id: self.transition_id,
            item_id: self.item_id@,
            item_revision: self.item_revision,
            from_display_id: self.from_display_id@,
            from_generation: self.from_generation,
            target_display_id: self.target_display_id@,
            candidate_generation: self.candidate_generation,
        }
    }
}

impl View for MediaRefreshTicket {
    type V = RefreshTicketView;

    open spec fn view(&self) -> RefreshTicketView {
        RefreshTicketView {
            item_id: self.item_id@,
            item_revision: self.item_revision,
            generation: self.generation,
        }
    }
}

impl View for Command {
    type V = CommandView;

    open spec fn view(&self) -> CommandView {
        match self {
            Command::Play => CommandView::Play,
            Command::Pause => CommandView::Pause,
            Command::Seek(p) => CommandView::Seek(*p),
            Command::Stop => CommandView::Stop,
            Command::BeginHandoff { target_display_id } => CommandView::BeginHandoff(
                target_display_id@,
            ),
        }
    }
}

impl View for CommandEnvelope {
    type V = EnvelopeView;

    open spec fn view(&self) -> EnvelopeView {
        EnvelopeView {
            request_id: self.request_id@,
            expected_session_revision: self.expected_session_revision,
            command: self.command@,
        }
    }
}

pub open spec fn opt_ticket_view(t: Option<HandoffTicket>) -> Option<TicketView> {
    match t {
        Some(t) => Some(t@),
        None => None,
    }
}

impl View for CommandResult {
    type V = ResultView;

    open spec fn view(&self) -> ResultView {
        ResultView {
            request_id: self.request_id@,
            session_revision: self.session_revision,
            transition: opt_ticket_view(self.transition),
        }
    }
}

pub open spec fn outcome_view(o: Result<CommandResult, CommandError>) -> Result<
    ResultView,
    CommandError,
> {
    match o {
        Ok(r) => Ok(r@),
        Err(e) => Err(e),
    }
}

/// The session with its revision advanced by one.
pub open spec fn bumped(v: PlaybackView) -> PlaybackView {
    PlaybackView { session_revision: (v.session_revision + 1) as u64, ..v }
}

pub open spec fn accepted(v: PlaybackView, request_id: Seq<char>, t: Option<TicketView>) -> Result<
    ResultView,
    CommandError,
> {
    Ok(ResultView { request_id, session_revision: v.session_revision, transition: t })
}

/// The ticket that a handoff begun in state `v` towards `target` carries.
pub open spec fn new_ticket(v: PlaybackView, target: Seq<char>) -> TicketView {
    TicketView {
        transition_id: v.next_transition_id,
        item_id: v.item.item_id,
        item_revision: v.item.item_revision,
        from_display_id: v.active_display.display_id,
        from_generation: v.active_display.generation,
        target_display_id: target,
        candidate_generation: v.next_display_generation,
    }
}

/// What a command that has never been seen before does to the session.
pub open spec fn fresh_step(v: PlaybackView, e: EnvelopeView) -> (PlaybackView, Result<
    ResultView,
    CommandError,
>) {
    if e.expected_session_revision is Some && e.expected_session_revision->0 != v.session_revision {
        (v, Err(CommandError::RevisionConflict { current_revision: v.session_revision }))
    } else {
        match e.command {
            CommandView::Play => {
                let n = bumped(PlaybackView { state: PlaybackState::Playing, ..v });
                (n, accepted(n, e.request_id, None))
            },
            CommandView::Pause => {
                let n = bumped(PlaybackView { state: PlaybackState::Paused, ..v });
                (n, accepted(n, e.request_id, None))
            },
            CommandView::Seek(p) => {
                let n = bumped(PlaybackView { position_ms: p, ..v });
                (n, accepted(n, e.request_id, None))
            },
            CommandView::Stop => {
                let n = bumped(PlaybackView { state: PlaybackState::Stopped, ..v });
                (n, accepted(n, e.request_id, None))
            },
            CommandView::BeginHandoff(target) => {
                if v.handoff is Some {
                    (
                        v,
                        Err(
                            CommandError::HandoffInProgress {
                                transition_id: v.handoff->0.ticket.transition_id,
                            },
                        ),
                    )
                } else {
                    let t = new_ticket(v, target);
                    let n = bumped(
                        PlaybackView {
                            next_display_generation: (v.next_display_generation + 1) as u64,
                            next_transition_id: (v.next_transition_id + 1) as u64,
                            handoff: Some(
                                HandoffView {
                                    ticket: t,
                                    candidate_position_ms: None,
                                    candidate_telemetry_sequence: 0,
                                },
                            ),
                            ..v
                        },
                    );
                    (n, accepted(n, e.request_id, Some(t)))
                }
            },
        }
    }
}

/// What `execute` does: a request id that was seen before replays its first
/// outcome (or is refused when reused for another envelope); a new request id
/// runs the command once and remembers the outcome.
pub open spec fn execute_step(v: PlaybackView, e: EnvelopeView) -> (PlaybackView, Result<
    ResultView,
    CommandError,
>) {
    if v.records.contains_key(e.request_id) {
        let r = v.records[e.request_id];
        if r.expected_session_revision == e.expected_session_revision && r.command
            == e.command {
            (v, r.outcome)
        } else {
            (v, Err(CommandError::RequestIdMismatch))
        }
    } else {
        let (n, out) = fresh_step(v, e);
        (
            PlaybackView {
                records: n.records.insert(
                    e.request_id,
                    RecordView {
                        expected_session_revision: e.expected_session_revision,
                        command: e.command,
                        outcome: out,
                    },
                ),
                ..n
            },
            out,
        )
    }
}

/// No counter of the session is at its largest value, so any operation can
/// advance it.
pub open spec fn can_advance(v: PlaybackView) -> bool {
    &&& v.session_revision < u64::MAX
    &&& v.item.item_revision < u64::MAX
    &&& v.item.media_generation < u64::MAX
    &&& v.next_transition_id < u64::MAX
    &&& v.next_display_generation < u64::MAX
}

/// A command not seen before is accepted: its expected revision, if any, is
/// the current one, and a handoff it begins is not refused for one already
/// in progress.
pub open spec fn fresh_accepted(v: PlaybackView, e: EnvelopeView) -> bool {
    &&& !(e.expected_session_revision is Some && e.expected_session_revision->0 != v.session_revision)
    &&& !(e.command is BeginHandoff && v.handoff is Some)
}

/// The counters that executing `e` advances are below their largest value:
/// the revision for an accepted new command, and the transition id and
/// display generation too for a handoff it begins.
pub open spec fn execute_room(v: PlaybackView, e: EnvelopeView) -> bool {
    !v.records.contains_key(e.request_id) && fresh_accepted(v, e) ==> {
        &&& v.session_revision < u64::MAX
        &&& e.command is BeginHandoff ==> v.next_transition_id < u64::MAX
            && v.next_display_generation < u64::MAX
    }
}

/// Structural invariant of a session: display generations handed out are
/// below the next one, and a handoff in progress belongs to the current item
/// and the current active display.
pub open spec fn session_wf(v: PlaybackView) -> bool {
    &&& v.active_display.generation < v.next_display_generation
    &&& v.handoff is Some ==> {
        let t = v.handoff->0.ticket;
        &&& t.item_id == v.item.item_id
        &&& t.item_revision == v.item.item_revision
        &&& t.from_display_id == v.active_display.display_id
        &&& t.from_generation == v.active_display.generation
        &&& v.active_display.generation < t.candidate_generation
        &&& t.candidate_generation < v.next_display_generation
        &&& t.transition_id < v.next_transition_id
    }
}

/// A position observation is accepted when it is for the current item and
/// newer than the last accepted observation.
pub open spec fn position_accepted(
    v: PlaybackView,
    item_id: Seq<char>,
    item_revision: u64,
    telemetry_sequence: u64,
) -> bool {
    &&& v.item.item_id == item_id
    &&& v.item.item_revision == item_revision
    &&& telemetry_sequence > v.telemetry_sequence
}

pub open spec fn handoff_matches(v: PlaybackView, t: TicketView) -> bool {
    v.handoff is Some && v.handoff->0.ticket == t
}

/// The checks shared by candidate observations and handoff commits.
pub open spec fn handoff_current(v: PlaybackView, t: TicketView) -> bool {
    &&& handoff_matches(v, t)
    &&& v.item.item_id == t.item_id
    &&& v.item.item_revision == t.item_revision
    &&& v.active_display.display_id == t.from_display_id
    &&& v.active_display.generation == t.from_generation
}


// ---------------------------------------------------------------------------
// The operations as steps on the model
// ---------------------------------------------------------------------------

/// Moving to another item: a new item revision, media generation 0, the
/// position and telemetry reset, any handoff dropped, the revision bumped.
pub open spec fn switch_step(v: PlaybackView, item_id: Seq<char>, resolved_media: Seq<char>) -> PlaybackView {
    PlaybackView {
        item: ItemView {
            item_id,
            item_revision: (v.item.item_revision + 1) as u64,
            resolved_media,
            media_generation: 0,
        },
        position_ms: 0,
        telemetry_sequence: 0,
        handoff: None,
        session_revision: (v.session_revision + 1) as u64,
        ..v
    }
}

/// A position observation: accepted ones set the position and telemetry
/// sequence; the session is otherwise unchanged.
pub open spec fn position_step(
    v: PlaybackView,
    item_id: Seq<char>,
    item_revision: u64,
    telemetry_sequence: u64,
    position_ms: u64,
) -> (PlaybackView, bool) {
    if position_accepted(v, item_id, item_revision, telemetry_sequence) {
        (PlaybackView { position_ms, telemetry_sequence, ..v }, true)
    } else {
        (v, false)
    }
}

/// A position observation from a display: it must also come from the
/// active display at its generation.
pub open spec fn display_position_step(
    v: PlaybackView,
    display_id: Seq<char>,
    display_generation: u64,
    item_id: Seq<char>,
    item_revision: u64,
    telemetry_sequence: u64,
    position_ms: u64,
) -> (PlaybackView, bool) {
    if v.active_display.display_id == display_id && v.active_display.generation == display_generation {
        position_step(v, item_id, item_revision, telemetry_sequence, position_ms)
    } else {
        (v, false)
    }
}

/// Starting a media refresh bumps the media generation only.
pub open spec fn refresh_begin_step(v: PlaybackView) -> PlaybackView {
    PlaybackView {
        item: ItemView { media_generation: (v.item.media_generation + 1) as u64, ..v.item },
        ..v
    }
}

/// Committing a media refresh for the current item and generation replaces
/// the resolved media and bumps the revision.
pub open spec fn refresh_commit_step(v: PlaybackView, t: RefreshTicketView, resolved_media: Seq<char>) -> (
    PlaybackView,
    bool,
) {
    if v.item.item_id == t.item_id && v.item.item_revision == t.item_revision
        && v.item.media_generation == t.generation {
        (
            PlaybackView {
                item: ItemView { resolved_media, ..v.item },
                session_revision: (v.session_revision + 1) as u64,
                ..v
            },
            true,
        )
    } else {
        (v, false)
    }
}

/// A candidate display's observation during a handoff: only the candidate
/// position and its sequence change.
pub open spec fn candidate_step(v: PlaybackView, t: TicketView, telemetry_sequence: u64, position_ms: u64) -> (
    PlaybackView,
    bool,
) {
    if handoff_current(v, t) && telemetry_sequence > v.handoff->0.candidate_telemetry_sequence {
        (
            PlaybackView {
                handoff: Some(
                    HandoffView {
                        candidate_position_ms: Some(position_ms),
                        candidate_telemetry_sequence: telemetry_sequence,
                        ..v.handoff->0
                    },
                ),
                ..v
            },
            true,
        )
    } else {
        (v, false)
    }
}

/// Committing the current handoff makes its target the active display at
/// the candidate generation, ends the handoff and bumps the revision.
pub open spec fn commit_step(v: PlaybackView, t: TicketView) -> (PlaybackView, bool) {
    if handoff_current(v, t) {
        (
            PlaybackView {
                active_display: DisplayView {
                    display_id: t.target_display_id,
                    generation: t.candidate_generation,
                },
                handoff: None,
                session_revision: (v.session_revision + 1) as u64,
                ..v
            },
            true,
        )
    } else {
        (v, false)
    }
}

/// Ending the handoff in progress (expiry or cancellation) clears it and
/// bumps the revision.
pub open spec fn end_handoff_step(v: PlaybackView, t: TicketView) -> (PlaybackView, bool) {
    if handoff_matches(v, t) {
        (PlaybackView { handoff: None, session_revision: (v.session_revision + 1) as u64, ..v }, true)
    } else {
        (v, false)
    }
}

// ---------------------------------------------------------------------------
// Laws of the session authority
// ---------------------------------------------------------------------------

/// Retrying a request is idempotent: executing the same envelope a second
/// time returns the first outcome and leaves the session unchanged.
pub proof fn law_execute_is_idempotent(v: PlaybackView, e: EnvelopeView)
    ensures
        execute_step(execute_step(v, e).0, e) == (execute_step(v, e).0, execute_step(v, e).1),
{
    if !v.records.contains_key(e.request_id) {
        let n = execute_step(v, e).0;
        assert(n.records.contains_key(e.request_id));
        assert(n.records[e.request_id].command == e.command);
    }
}

/// A request id reused with a different envelope is refused and changes
/// nothing.
pub proof fn law_request_id_reuse_is_refused(v: PlaybackView, e: EnvelopeView, f: EnvelopeView)
    requires
        e.request_id == f.request_id,
        e.expected_session_revision != f.expected_session_revision || e.command != f.command,
    ensures
        execute_step(execute_step(v, e).0, f) == (
            execute_step(v, e).0,
            if v.records.contains_key(e.request_id) && !(v.records[e.request_id].expected_session_revision
                == f.expected_session_revision && v.records[e.request_id].command == f.command) {
                Err(CommandError::RequestIdMismatch)
            } else if v.records.contains_key(e.request_id) {
                v.records[e.request_id].outcome
            } else {
                Err::<ResultView, CommandError>(CommandError::RequestIdMismatch)
            },
        ),
{
}

/// The session revision never goes back, and every command that is accepted
/// for the first time advances it by exactly one.
pub proof fn law_revision_is_monotone(v: PlaybackView, e: EnvelopeView)
    requires
        v.session_revision < u64::MAX,
    ensures
        execute_step(v, e).0.session_revision >= v.session_revision,
        !v.records.contains_key(e.request_id) && execute_step(v, e).1 is Ok ==> execute_step(v, e).0.session_revision == v.session_revision + 1,
        !v.records.contains_key(e.request_id) && execute_step(v, e).1 is Err ==> execute_step(
            v,
            e,
        ).0.session_revision == v.session_revision,
{
}

/// Compare-and-swap: a new command that expects another revision than the
/// current one is refused with the current revision, and only its request id
/// is remembered.
pub proof fn law_stale_expectation_is_refused(v: PlaybackView, e: EnvelopeView)
    requires
        !v.records.contains_key(e.request_id),
        e.expected_session_revision is Some,
        e.expected_session_revision->0 != v.session_revision,
    ensures
        execute_step(v, e).1 == Err::<ResultView, CommandError>(
            CommandError::RevisionConflict { current_revision: v.session_revision },
        ),
        execute_step(v, e).0 == (PlaybackView {
            records: v.records.insert(
                e.request_id,
                RecordView {
                    expected_session_revision: e.expected_session_revision,
                    command: e.command,
                    outcome: execute_step(v, e).1,
                },
            ),
            ..v
        }),
{
}

/// Two controllers that both act on one observed revision cannot both
/// commit: once the first is accepted, the second is refused.
pub proof fn law_one_revision_admits_one_commit(v: PlaybackView, a: EnvelopeView, b: EnvelopeView)
    requires
        v.session_revision < u64::MAX,
        a.request_id != b.request_id,
        !v.records.contains_key(a.request_id),
        !v.records.contains_key(b.request_id),
        a.expected_session_revision == Some(v.session_revision),
        b.expected_session_revision == Some(v.session_revision),
        execute_step(v, a).1 is Ok,
    ensures
        execute_step(execute_step(v, a).0, b).1 == Err::<ResultView, CommandError>(
            CommandError::RevisionConflict { current_revision: (v.session_revision + 1) as u64 },
        ),
{
    let n = execute_step(v, a).0;
    assert(!n.records.contains_key(b.request_id));
}

/// At most one handoff is in progress: beginning another is refused with the
/// id of the one in progress.
pub proof fn law_one_handoff_at_a_time(v: PlaybackView, e: EnvelopeView, target: Seq<char>)
    requires
        !v.records.contains_key(e.request_id),
        e.command == CommandView::BeginHandoff(target),
        e.expected_session_revision is None || e.expected_session_revision == Some(
            v.session_revision,
        ),
        v.handoff is Some,
    ensures
        execute_step(v, e).1 == Err::<ResultView, CommandError>(
            CommandError::HandoffInProgress { transition_id: v.handoff->0.ticket.transition_id },
        ),
        execute_step(v, e).0.handoff == v.handoff,
        execute_step(v, e).0.active_display == v.active_display,
{
}

/// Every executed command keeps the structural invariant of the session.
pub proof fn law_execute_keeps_invariant(v: PlaybackView, e: EnvelopeView)
    requires
        session_wf(v),
        can_advance(v),
    ensures
        session_wf(execute_step(v, e).0),
{
}

/// A handoff that can be committed moves the active display to a strictly
/// newer generation, so observations of the old generation are stale from
/// then on.
pub proof fn law_commit_advances_display_generation(v: PlaybackView, t: TicketView)
    requires
        session_wf(v),
        handoff_current(v, t),
    ensures
        t.candidate_generation > v.active_display.generation,
        t.candidate_generation < v.next_display_generation,
{
}

// ---------------------------------------------------------------------------
// Executable session
// ---------------------------------------------------------------------------

#[derive(Clone, Debug)]
struct HandoffTransition {
    ticket: HandoffTicket,
    candidate_position_ms: Option<u64>,
    candidate_telemetry_sequence: u64,
}

#[derive(Debug)]
struct RequestRecord {
    request_id: String,
    expected_session_revision: Option<u64>,
    command: Command,
    outcome: Result<CommandResult, CommandError>,
}

#[derive(Debug)]
pub struct PlaybackSession {
    session_revision: u64,
    state: PlaybackState,
    current_item: PlaybackItem,
    position_ms: u64,
    telemetry_sequence: u64,
    active_display: DisplayAuthority,
    handoff: Option<HandoffTransition>,
    next_transition_id: u64,
    next_display_generation: u64,
    request_records: Vec<RequestRecord>,
}

spec fn handoff_view(h: Option<HandoffTransition>) -> Option<HandoffView> {
    match h {
        Some(t) => Some(
            HandoffView {
                ticket: t.ticket@,
                candidate_position_ms: t.candidate_position_ms,
                candidate_telemetry_sequence: t.candidate_telemetry_sequence,
            },
        ),
        None => None,
    }
}

spec fn record_view(r: RequestRecord) -> RecordView {
    RecordView {
        expected_session_revision: r.expected_session_revision,
        command: r.command@,
        outcome: outcome_view(r.outcome),
    }
}

spec fn has_key(s: Seq<RequestRecord>, k: Seq<char>) -> bool {
    exists|i: int| 0 <= i < s.len() && #[trigger] s[i].request_id@ == k
}

spec fn records_map(s: Seq<RequestRecord>) -> Map<Seq<char>, RecordView> {
    Map::new(
        |k: Seq<char>| has_key(s, k),
        |k: Seq<char>|
            record_view(s[choose|i: int| 0 <= i < s.len() && #[trigger] s[i].request_id@ == k]),
    )
}

spec fn keys_distinct(s: Seq<RequestRecord>) -> bool {
    forall|i: int, j: int|
        0 <= i < s.len() && 0 <= j < s.len() && i != j ==> #[trigger] s[i].request_id@
            != #[trigger] s[j].request_id@
}

proof fn lemma_records_lookup(s: Seq<RequestRecord>, i: int)
    requires
        keys_distinct(s),
        0 <= i < s.len(),
    ensures
        records_map(s).contains_key(s[i].request_id@),
        records_map(s)[s[i].request_id@] == record_view(s[i]),
{
    let k = s[i].request_id@;
    assert(has_key(s, k));
    let j = choose|j: int| 0 <= j < s.len() && #[trigger] s[j].request_id@ == k;
    assert(j == i);
}

proof fn lemma_records_push(s: Seq<RequestRecord>, r: RequestRecord)
    requires
        keys_distinct(s),
        !has_key(s, r.request_id@),
    ensures
        keys_distinct(s.push(r)),
        records_map(s.push(r)) == records_map(s).insert(r.request_id@, record_view(r)),
{
    let t = s.push(r);
    assert forall|i: int, j: int|
        0 <= i < t.len() && 0 <= j < t.len() && i != j implies #[trigger] t[i].request_id@
        != #[trigger] t[j].request_id@ by {
        if i == s.len() {
            assert(s[j] == t[j]);
        } else if j == s.len() {
            assert(s[i] == t[i]);
        } else {
            assert(s[i] == t[i] && s[j] == t[j]);
        }
    }
    let m1 = records_map(t);
    let m2 = records_map(s).insert(r.request_id@, record_view(r));
    assert forall|k: Seq<char>| m1.contains_key(k) <==> m2.contains_key(k) by {
        if has_key(t, k) {
            let i = choose|i: int| 0 <= i < t.len() && #[trigger] t[i].request_id@ == k;
            if i < s.len() {
                assert(s[i] == t[i]);
                assert(has_key(s, k));
            }
        }
        if has_key(s, k) {
            let i = choose|i: int| 0 <= i < s.len() && #[trigger] s[i].request_id@ == k;
            assert(t[i] == s[i]);
            assert(has_key(t, k));
        }
        if k == r.request_id@ {
            assert(t[s.len() as int] == r);
            assert(has_key(t, k));
        }
    }
    assert forall|k: Seq<char>| #[trigger] m1.contains_key(k) implies m1[k] == m2[k] by {
        let i = choose|i: int| 0 <= i < t.len() && #[trigger] t[i].request_id@ == k;
        lemma_records_lookup(t, i);
        if i < s.len() {
            assert(s[i] == t[i]);
            lemma_records_lookup(s, i);
        } else {
            assert(t[i] == r);
        }
    }
    assert(m1 =~= m2);
}

impl View for PlaybackSession {
    type V = PlaybackView;

    closed spec fn view(&self) -> PlaybackView {
        PlaybackView {
            session_revision: self.session_revision,
            state: self.state,
            item: self.current_item@,
            position_ms: self.position_ms,
            telemetry_sequence: self.telemetry_sequence,
            active_display: self.active_display@,
            handoff: handoff_view(self.handoff),
            next_transition_id: self.next_transition_id,
            next_display_generation: self.next_display_generation,
            records: records_map(self.request_records@),
        }
    }
}

fn string_eq(a: &String, b: &String) -> (r: bool)
    ensures
        r == (a@ == b@),
{
    a.eq(b)
}

fn command_eq(a: &Command, b: &Command) -> (r: bool)
    ensures
        r == (a@ == b@),
{
    match (a, b) {
        (Command::Play, Command::Play) => true,
        (Command::Pause, Command::Pause) => true,
        (Command::Seek(x), Command::Seek(y)) => *x == *y,
        (Command::Stop, Command::Stop) => true,
        (
            Command::BeginHandoff { target_display_id: x },
            Command::BeginHandoff { target_display_id: y },
        ) => string_eq(x, y),
        _ => false,
    }
}

fn ticket_eq(a: &HandoffTicket, b: &HandoffTicket) -> (r: bool)
    ensures
        r == (a@ == b@),
{
    a.transition_id == b.transition_id && string_eq(&a.item_id, &b.item_id) && a.item_revision
        == b.item_revision && string_eq(&a.from_display_id, &b.from_display_id)
        && a.from_generation == b.from_generation && string_eq(
        &a.target_display_id,
        &b.target_display_id,
    ) && a.candidate_generation == b.candidate_generation
}

fn clone_ticket(t: &HandoffTicket) -> (r: HandoffTicket)
    ensures
        r@ == t@,
{
    HandoffTicket {
        transition_id: t.transition_id,
        item_id: t.item_id.clone(),
        item_revision: t.item_revision,
        from_display_id: t.from_display_id.clone(),
        from_generation: t.from_generation,
        target_display_id: t.target_display_id.clone(),
        candidate_generation: t.candidate_generation,
    }
}

/// A copy of a handoff ticket.
pub fn clone_ticket_pub(t: &HandoffTicket) -> (r: HandoffTicket)
    ensures
        r@ == t@,
{
    clone_ticket(t)
}

fn clone_command(c: &Command) -> (r: Command)
    ensures
        r@ == c@,
{
    match c {
        Command::Play => Command::Play,
        Command::Pause => Command::Pause,
        Command::Seek(p) => Command::Seek(*p),
        Command::Stop => Command::Stop,
        Command::BeginHandoff { target_display_id } => Command::BeginHandoff {
            target_display_id: target_display_id.clone(),
        },
    }
}

fn clone_outcome(o: &Result<CommandResult, CommandError>) -> (r: Result<
    CommandResult,
    CommandError,
>)
    ensures
        outcome_view(r) == outcome_view(*o),
{
    match o {
        Ok(res) => Ok(
            CommandResult {
                request_id: res.request_id.clone(),
                session_revision: res.session_revision,
                transition: match &res.transition {
                    Some(t) => Some(clone_ticket(t)),
                    None => None,
                },
            },
        ),
        Err(e) => Err(*e),
    }
}

impl PlaybackSession {
    /// The structural invariant holds; every constructor establishes it and
    /// every operation keeps it.
    pub closed spec fn wf(&self) -> bool {
        &&& session_wf(self@)
        &&& keys_distinct(self.request_records@)
    }

    /// A well-formed session satisfies the structural invariant of its model.
    pub proof fn lemma_wf_model(&self)
        requires
            self.wf(),
        ensures
            session_wf(self@),
    {
    }

    pub fn new(item_id: String, resolved_media: String, display_id: String) -> (s: Self)
        ensures
            s.wf(),
            s@.session_revision == 0,
            s@.state == PlaybackState::Playing,
            s@.item == (ItemView {
                item_id: item_id@,
                item_revision: 1,
                resolved_media: resolved_media@,
                media_generation: 0,
            }),
            s@.position_ms == 0,
            s@.telemetry_sequence == 0,
            s@.active_display == (DisplayView { display_id: display_id@, generation: 1 }),
            s@.handoff is None,
            s@.next_transition_id == 1,
            s@.next_display_generation == 2,
            s@.records == Map::<Seq<char>, RecordView>::empty(),
    {
        let s = PlaybackSession {
            session_revision: 0,
            state: PlaybackState::Playing,
            current_item: PlaybackItem {
                item_id,
                item_revision: 1,
                resolved_media,
                media_generation: 0,
            },
            position_ms: 0,
            telemetry_sequence: 0,
            active_display: DisplayAuthority { display_id, generation: 1 },
            handoff: None,
            next_transition_id: 1,
            next_display_generation: 2,
            request_records: Vec::new(),
        };
        assert(records_map(s.request_records@) =~= Map::<Seq<char>, RecordView>::empty());
        s
    }

    pub fn session_revision(&self) -> (r: u64)
        ensures
            r == self@.session_revision,
    {
        self.session_revision
    }

    pub fn state(&self) -> (r: PlaybackState)
        ensures
            r == self@.state,
    {
        self.state
    }

    pub fn current_item_id(&self) -> (r: &str)
        ensures
            r@ == self@.item.item_id,
    {
        self.current_item.item_id.as_str()
    }

    pub fn item_revision(&self) -> (r: u64)
        ensures
            r == self@.item.item_revision,
    {
        self.current_item.item_revision
    }

    pub fn resolved_media(&self) -> (r: &str)
        ensures
            r@ == self@.item.resolved_media,
    {
        self.current_item.resolved_media.as_str()
    }

    pub fn media_generation(&self) -> (r: u64)
        ensures
            r == self@.item.media_generation,
    {
        self.current_item.media_generation
    }

    pub fn position_ms(&self) -> (r: u64)
        ensures
            r == self@.position_ms,
    {
        self.position_ms
    }

    pub fn telemetry_sequence(&self) -> (r: u64)
        ensures
            r == self@.telemetry_sequence,
    {
        self.telemetry_sequence
    }

    pub fn active_display(&self) -> (r: &DisplayAuthority)
        ensures
            r@ == self@.active_display,
    {
        &self.active_display
    }

    pub fn active_handoff(&self) -> (r: Option<&HandoffTicket>)
        ensures
            r is Some == self@.handoff is Some,
            r is Some ==> r->0@ == self@.handoff->0.ticket,
    {
        match &self.handoff {
            Some(t) => Some(&t.ticket),
            None => None,
        }
    }

    pub fn has_request_id(&self, request_id: &String) -> (r: bool)
        requires
            self.wf(),
        ensures
            r == self@.records.contains_key(request_id@),
    {
        match self.find_record(request_id) {
            Some(_) => true,
            None => false,
        }
    }

    pub fn candidate_position_ms(&self) -> (r: Option<u64>)
        ensures
            r == (match self@.handoff {
                Some(h) => h.candidate_position_ms,
                None => None,
            }),
    {
        match &self.handoff {
            Some(t) => t.candidate_position_ms,
            None => None,
        }
    }

    fn find_record(&self, request_id: &String) -> (r: Option<usize>)
        requires
            keys_distinct(self.request_records@),
        ensures
            r is None ==> !self@.records.contains_key(request_id@),
            r is Some ==> r->0 < self.request_records@.len() && self.request_records@[r->0 as int].request_id@
                == request_id@ && self@.records.contains_key(request_id@) && self@.records[request_id@]
                == record_view(self.request_records@[r->0 as int]),
    {
        let mut i: usize = 0;
        while i < self.request_records.len()
            invariant
                i <= self.request_records@.len(),
                keys_distinct(self.request_records@),
                forall|j: int| 0 <= j < i ==> self.request_records@[j].request_id@ != request_id@,
            decreases self.request_records@.len() - i,
        {
            if string_eq(&self.request_records[i].request_id, request_id) {
                proof {
                    lemma_records_lookup(self.request_records@, i as int);
                }
                return Some(i);
            }
            i = i + 1;
        }
        proof {
            if has_key(self.request_records@, request_id@) {
                let j = choose|j: int|
                    0 <= j < self.request_records@.len() && #[trigger] self.request_records@[j].request_id@
                        == request_id@;
                assert(self.request_records@[j].request_id@ != request_id@);
            }
        }
        None
    }

    pub fn execute(&mut self, envelope: CommandEnvelope) -> (r: Result<CommandResult, CommandError>)
        requires
            old(self).wf(),
            execute_room(old(self)@, envelope@),
        ensures
            final(self).wf(),
            (final(self)@, outcome_view(r)) == execute_step(old(self)@, envelope@),
            final(self)@ == op_step(old(self)@, SessionOp::Execute(envelope@)),
    {
        match self.find_record(&envelope.request_id) {
            Some(i) => {
                let record = &self.request_records[i];
                if record.expected_session_revision == envelope.expected_session_revision
                    && command_eq(&record.command, &envelope.command) {
                    return clone_outcome(&record.outcome);
                }
                return Err(CommandError::RequestIdMismatch);
            },
            None => {},
        }
        let ghost before = self@;
        let outcome = self.execute_fresh(&envelope);
        let record = RequestRecord {
            request_id: envelope.request_id.clone(),
            expected_session_revision: envelope.expected_session_revision,
            command: clone_command(&envelope.command),
            outcome: clone_outcome(&outcome),
        };
        proof {
            lemma_records_push(self.request_records@, record);
        }
        self.request_records.push(record);
        outcome
    }

    fn execute_fresh(&mut self, envelope: &CommandEnvelope) -> (r: Result<
        CommandResult,
        CommandError,
    >)
        requires
            old(self).wf(),
            execute_room(old(self)@, envelope@),
            !old(self)@.records.contains_key(envelope@.request_id),
        ensures
            final(self).wf(),
            final(self).request_records == old(self).request_records,
            (final(self)@, outcome_view(r)) == fresh_step(old(self)@, envelope@),
    {
        if let Some(expected) = envelope.expected_session_revision {
            if expected != self.session_revision {
                return Err(CommandError::RevisionConflict { current_revision: self.session_revision });
            }
        }
        let transition = match &envelope.command {
            Command::Play => {
                self.state = PlaybackState::Playing;
                self.bump_session_revision();
                None
            },
            Command::Pause => {
                self.state = PlaybackState::Paused;
                self.bump_session_revision();
                None
            },
            Command::Seek(position_ms) => {
                self.position_ms = *position_ms;
                self.bump_session_revision();
                None
            },
            Command::Stop => {
                self.state = PlaybackState::Stopped;
                self.bump_session_revision();
                None
            },
            Command::BeginHandoff { target_display_id } => {
                if let Some(active) = &self.handoff {
                    return Err(
                        CommandError::HandoffInProgress {
                            transition_id: active.ticket.transition_id,
                        },
                    );
                }
                let candidate_generation = self.next_display_generation;
                self.next_display_generation = self.next_display_generation + 1;
                let ticket = HandoffTicket {
                    transition_id: self.next_transition_id,
                    item_id: self.current_item.item_id.clone(),
                    item_revision: self.current_item.item_revision,
                    from_display_id: self.active_display.display_id.clone(),
                    from_generation: self.active_display.generation,
                    target_display_id: target_display_id.clone(),
                    candidate_generation,
                };
                self.next_transition_id = self.next_transition_id + 1;
                self.handoff = Some(
                    HandoffTransition {
                        ticket: clone_ticket(&ticket),
                        candidate_position_ms: None,
                        candidate_telemetry_sequence: 0,
                    },
                );
                self.bump_session_revision();
                Some(ticket)
            },
        };
        Ok(
            CommandResult {
                request_id: envelope.request_id.clone(),
                session_revision: self.session_revision,
                transition,
            },
        )
    }

    /// Replaces the current item. Position, telemetry and any handoff are
    /// reset; the item revision and the session revision advance.
    pub fn switch_item(&mut self, item_id: String, resolved_media: String)
        requires
            old(self).wf(),
            old(self)@.item.item_revision < u64::MAX,
            old(self)@.session_revision < u64::MAX,
        ensures
            final(self).wf(),
            final(self)@ == switch_step(old(self)@, item_id@, resolved_media@),
            final(self)@ == op_step(old(self)@, SessionOp::SwitchItem(item_id@, resolved_media@)),
    {
        let item_revision = self.current_item.item_revision + 1;
        self.current_item = PlaybackItem { item_id, item_revision, resolved_media, media_generation: 0 };
        self.position_ms = 0;
        self.telemetry_sequence = 0;
        self.handoff = None;
        self.bump_session_revision();
    }

    /// Applies a position observation. It never changes the session revision.
    pub fn apply_position_callback(
        &mut self,
        item_id: &str,
        item_revision: u64,
        telemetry_sequence: u64,
        position_ms: u64,
    ) -> (r: bool)
        requires
            old(self).wf(),
        ensures
            final(self).wf(),
            (final(self)@, r) == position_step(old(self)@, item_id@, item_revision, telemetry_sequence, position_ms),
            final(self)@ == op_step(
                old(self)@,
                SessionOp::PositionCallback(item_id@, item_revision, telemetry_sequence, position_ms),
            ),
    {
        if !str_eq(self.current_item.item_id.as_str(), item_id)
            || self.current_item.item_revision != item_revision || telemetry_sequence
            <= self.telemetry_sequence {
            return false;
        }
        self.position_ms = position_ms;
        self.telemetry_sequence = telemetry_sequence;
        true
    }

    /// Applies a position observation that a display reports; only the active
    /// display at its current generation is heard.
    pub fn apply_display_position_callback(
        &mut self,
        display_id: &str,
        display_generation: u64,
        item_id: &str,
        item_revision: u64,
        telemetry_sequence: u64,
        position_ms: u64,
    ) -> (r: bool)
        requires
            old(self).wf(),
        ensures
            final(self).wf(),
            (final(self)@, r) == display_position_step(
                old(self)@,
                display_id@,
                display_generation,
                item_id@,
                item_revision,
                telemetry_sequence,
                position_ms,
            ),
            final(self)@ == op_step(
                old(self)@,
                SessionOp::DisplayPositionCallback(
                    display_id@,
                    display_generation,
                    item_id@,
                    item_revision,
                    telemetry_sequence,
                    position_ms,
                ),
            ),
    {
        if !str_eq(self.active_display.display_id.as_str(), display_id)
            || self.active_display.generation != display_generation {
            return false;
        }
        self.apply_position_callback(item_id, item_revision, telemetry_sequence, position_ms)
    }

    /// Starts a media refresh: the media generation advances and the returned
    /// ticket names it.
    pub fn begin_media_refresh(&mut self) -> (t: MediaRefreshTicket)
        requires
            old(self).wf(),
            old(self)@.item.media_generation < u64::MAX,
        ensures
            final(self).wf(),
            final(self)@ == refresh_begin_step(old(self)@),
            final(self)@ == op_step(old(self)@, SessionOp::BeginMediaRefresh),
            t@ == (RefreshTicketView {
                item_id: old(self)@.item.item_id,
                item_revision: old(self)@.item.item_revision,
                generation: (old(self)@.item.media_generation + 1) as u64,
            }),
    {
        self.current_item.media_generation = self.current_item.media_generation + 1;
        MediaRefreshTicket {
            item_id: self.current_item.item_id.clone(),
            item_revision: self.current_item.item_revision,
            generation: self.current_item.media_generation,
        }
    }

    /// Commits refreshed media when the ticket is still the latest refresh of
    /// the current item.
    pub fn commit_media_refresh(&mut self, ticket: &MediaRefreshTicket, resolved_media: String) -> (r:
        bool)
        requires
            old(self).wf(),
            old(self)@.item.item_id == ticket@.item_id && old(self)@.item.item_revision
                == ticket@.item_revision && old(self)@.item.media_generation == ticket@.generation
                ==> old(self)@.session_revision < u64::MAX,
        ensures
            final(self).wf(),
            (final(self)@, r) == refresh_commit_step(old(self)@, ticket@, resolved_media@),
            final(self)@ == op_step(old(self)@, SessionOp::CommitMediaRefresh(ticket@, resolved_media@)),
    {
        if !string_eq(&self.current_item.item_id, &ticket.item_id)
            || self.current_item.item_revision != ticket.item_revision
            || self.current_item.media_generation != ticket.generation {
            return false;
        }
        self.current_item.resolved_media = resolved_media;
        self.bump_session_revision();
        true
    }

    fn handoff_is(&self, ticket: &HandoffTicket) -> (r: bool)
        ensures
            r == handoff_matches(self@, ticket@),
    {
        match &self.handoff {
            Some(transition) => ticket_eq(&transition.ticket, ticket),
            None => false,
        }
    }

    fn handoff_is_current(&self, ticket: &HandoffTicket) -> (r: bool)
        ensures
            r == handoff_current(self@, ticket@),
    {
        self.handoff_is(ticket) && string_eq(&self.current_item.item_id, &ticket.item_id)
            && self.current_item.item_revision == ticket.item_revision && string_eq(
            &self.active_display.display_id,
            &ticket.from_display_id,
        ) && self.active_display.generation == ticket.from_generation
    }

    /// Records an observation reported by the handoff candidate. It never
    /// changes the active display, the session revision or the active
    /// telemetry; candidate sequences are local to the handoff.
    pub fn apply_candidate_callback(
        &mut self,
        ticket: &HandoffTicket,
        telemetry_sequence: u64,
        position_ms: u64,
    ) -> (r: bool)
        requires
            old(self).wf(),
        ensures
            final(self).wf(),
            (final(self)@, r) == candidate_step(old(self)@, ticket@, telemetry_sequence, position_ms),
            final(self)@ == op_step(
                old(self)@,
                SessionOp::CandidateCallback(ticket@, telemetry_sequence, position_ms),
            ),
    {
        if !self.handoff_is_current(ticket) {
            return false;
        }
        match &mut self.handoff {
            Some(transition) => {
                if telemetry_sequence <= transition.candidate_telemetry_sequence {
                    return false;
                }
                transition.candidate_telemetry_sequence = telemetry_sequence;
                transition.candidate_position_ms = Some(position_ms);
            },
            None => {},
        }
        true
    }

    /// Makes the handoff target the active display at its candidate
    /// generation.
    pub fn commit_handoff(&mut self, ticket: &HandoffTicket) -> (r: bool)
        requires
            old(self).wf(),
            handoff_current(old(self)@, ticket@) ==> old(self)@.session_revision < u64::MAX,
        ensures
            final(self).wf(),
            (final(self)@, r) == commit_step(old(self)@, ticket@),
            final(self)@ == op_step(old(self)@, SessionOp::CommitHandoff(ticket@)),
    {
        if !self.handoff_is_current(ticket) {
            return false;
        }
        self.active_display = DisplayAuthority {
            display_id: ticket.target_display_id.clone(),
            generation: ticket.candidate_generation,
        };
        self.handoff = None;
        self.bump_session_revision();
        true
    }

    /// Drops the handoff named by the ticket; the active display stays.
    pub fn expire_handoff(&mut self, ticket: &HandoffTicket) -> (r: bool)
        requires
            old(self).wf(),
            handoff_matches(old(self)@, ticket@) ==> old(self)@.session_revision < u64::MAX,
        ensures
            final(self).wf(),
            (final(self)@, r) == end_handoff_step(old(self)@, ticket@),
            final(self)@ == op_step(old(self)@, SessionOp::ExpireHandoff(ticket@)),
    {
        if !self.handoff_is(ticket) {
            return false;
        }
        self.handoff = None;
        self.bump_session_revision();
        true
    }

    pub fn cancel_handoff(&mut self, ticket: &HandoffTicket) -> (r: bool)
        requires
            old(self).wf(),
            handoff_matches(old(self)@, ticket@) ==> old(self)@.session_revision < u64::MAX,
        ensures
            final(self).wf(),
            (final(self)@, r) == end_handoff_step(old(self)@, ticket@),
            final(self)@ == op_step(old(self)@, SessionOp::CancelHandoff(ticket@)),
    {
        self.expire_handoff(ticket)
    }

    fn bump_session_revision(&mut self)
        requires
            old(self).session_revision < u64::MAX,
        ensures
            final(self).session_revision == old(self).session_revision + 1,
            final(self).state == old(self).state,
            final(self).current_item == old(self).current_item,
            final(self).position_ms == old(self).position_ms,
            final(self).telemetry_sequence == old(self).telemetry_sequence,
            final(self).active_display == old(self).active_display,
            final(self).handoff == old(self).handoff,
            final(self).next_transition_id == old(self).next_transition_id,
            final(self).next_display_generation == old(self).next_display_generation,
            final(self).request_records == old(self).request_records,
    {
        self.session_revision = self.session_revision + 1;
    }
}

/// Equality of two string slices by their characters, compared through
/// their UTF-8 bytes: two character sequences are equal exactly when their
/// encodings are.
pub(crate) fn str_eq(a: &str, b: &str) -> (r: bool)
    ensures
        r == (a@ == b@),
{
    let x = a.as_bytes();
    let y = b.as_bytes();
    proof {
        vstd::utf8::encode_utf8_decode_utf8(a@);
        vstd::utf8::encode_utf8_decode_utf8(b@);
    }
    if x.len() != y.len() {
        return false;
    }
    let mut i: usize = 0;
    while i < x.len()
        invariant
            i <= x@.len(),
            x@.len() == y@.len(),
            x@ == vstd::utf8::encode_utf8(a@),
            y@ == vstd::utf8::encode_utf8(b@),
            forall|k: int| 0 <= k < i ==> x@[k] == y@[k],
        decreases x@.len() - i,
    {
        if x[i] != y[i] {
            return false;
        }
        i = i + 1;
    }
    assert(x@ =~= y@);
    true
}

} // verus!

verus! {

impl PlaybackSession {
    /// Whether every counter of the session can advance once more.
    pub fn counters_can_advance(&self) -> (r: bool)
        ensures
            r == can_advance(self@),
    {
        self.session_revision < u64::MAX && self.current_item.item_revision < u64::MAX
            && self.current_item.media_generation < u64::MAX && self.next_transition_id
            < u64::MAX && self.next_display_generation < u64::MAX
    }
}

} // verus!

verus! {

// ---------------------------------------------------------------------------
// Laws over sequences of operations
// ---------------------------------------------------------------------------

/// One operation on a session, with its arguments by their views.
pub enum SessionOp {
    Execute(EnvelopeView),
    SwitchItem(Seq<char>, Seq<char>),
    PositionCallback(Seq<char>, u64, u64, u64),
    DisplayPositionCallback(Seq<char>, u64, Seq<char>, u64, u64, u64),
    CandidateCallback(TicketView, u64, u64),
    BeginMediaRefresh,
    CommitMediaRefresh(RefreshTicketView, Seq<char>),
    CommitHandoff(TicketView),
    ExpireHandoff(TicketView),
    CancelHandoff(TicketView),
}

/// The session after the operation, as each operation's contract gives it.
pub open spec fn op_step(v: PlaybackView, op: SessionOp) -> PlaybackView {
    match op {
        SessionOp::Execute(e) => execute_step(v, e).0,
        SessionOp::SwitchItem(i, m) => switch_step(v, i, m),
        SessionOp::PositionCallback(i, r, q, p) => position_step(v, i, r, q, p).0,
        SessionOp::DisplayPositionCallback(d, g, i, r, q, p) => display_position_step(v, d, g, i, r, q, p).0,
        SessionOp::CandidateCallback(t, q, p) => candidate_step(v, t, q, p).0,
        SessionOp::BeginMediaRefresh => refresh_begin_step(v),
        SessionOp::CommitMediaRefresh(t, m) => refresh_commit_step(v, t, m).0,
        SessionOp::CommitHandoff(t) => commit_step(v, t).0,
        SessionOp::ExpireHandoff(t) => end_handoff_step(v, t).0,
        SessionOp::CancelHandoff(t) => end_handoff_step(v, t).0,
    }
}

/// The operation's counters can advance: what its `requires` asks.
pub open spec fn op_room(v: PlaybackView, op: SessionOp) -> bool {
    match op {
        SessionOp::Execute(e) => execute_room(v, e),
        SessionOp::SwitchItem(_, _) => v.item.item_revision < u64::MAX && v.session_revision < u64::MAX,
        SessionOp::BeginMediaRefresh => v.item.media_generation < u64::MAX,
        SessionOp::CommitMediaRefresh(t, _) => refresh_commit_step(v, t, seq![]).1 ==> v.session_revision
            < u64::MAX,
        SessionOp::CommitHandoff(t) => handoff_current(v, t) ==> v.session_revision < u64::MAX,
        SessionOp::ExpireHandoff(t) => handoff_matches(v, t) ==> v.session_revision < u64::MAX,
        SessionOp::CancelHandoff(t) => handoff_matches(v, t) ==> v.session_revision < u64::MAX,
        _ => true,
    }
}

/// The session after the operations, in order.
pub open spec fn run(v: PlaybackView, ops: Seq<SessionOp>) -> PlaybackView
    decreases ops.len(),
{
    if ops.len() == 0 {
        v
    } else {
        op_step(run(v, ops.drop_last()), ops.last())
    }
}

/// Each operation of the sequence met its `requires` when it was made.
pub open spec fn run_ok(v: PlaybackView, ops: Seq<SessionOp>) -> bool
    decreases ops.len(),
{
    if ops.len() == 0 {
        true
    } else {
        run_ok(v, ops.drop_last()) && op_room(run(v, ops.drop_last()), ops.last())
    }
}

/// Whether the operation advances the session revision: a new command
/// that is accepted, a switch of item, and a successful media-refresh
/// commit, handoff commit, expiry or cancellation.
pub open spec fn bumps_revision(v: PlaybackView, op: SessionOp) -> bool {
    match op {
        SessionOp::Execute(e) => !v.records.contains_key(e.request_id) && fresh_accepted(v, e),
        SessionOp::SwitchItem(_, _) => true,
        SessionOp::CommitMediaRefresh(t, m) => refresh_commit_step(v, t, m).1,
        SessionOp::CommitHandoff(t) => handoff_current(v, t),
        SessionOp::ExpireHandoff(t) => handoff_matches(v, t),
        SessionOp::CancelHandoff(t) => handoff_matches(v, t),
        _ => false,
    }
}

/// The session revision rises by exactly one on each operation that
/// advances it, and every other operation (callbacks, the start of a media
/// refresh, replays, refusals and failed commits) leaves it as it was.
pub proof fn law_revision_step(v: PlaybackView, op: SessionOp)
    requires
        op_room(v, op),
    ensures
        op_step(v, op).session_revision == if bumps_revision(v, op) {
            v.session_revision + 1
        } else {
            v.session_revision as int
        },
{
}

/// Over any sequence of operations the session revision never goes back.
pub proof fn law_revision_never_decreases(v: PlaybackView, ops: Seq<SessionOp>)
    requires
        run_ok(v, ops),
    ensures
        run(v, ops).session_revision >= v.session_revision,
    decreases ops.len(),
{
    if ops.len() > 0 {
        law_revision_never_decreases(v, ops.drop_last());
        law_revision_step(run(v, ops.drop_last()), ops.last());
    }
}

/// Only a new, accepted play, pause or stop command changes the playback
/// state; a seek moves the position and a handoff leaves the state alone.
pub proof fn law_state_changes_only_by_commands(v: PlaybackView, op: SessionOp)
    ensures
        op_step(v, op).state == match op {
            SessionOp::Execute(e) => if !v.records.contains_key(e.request_id) && fresh_accepted(v, e) {
                match e.command {
                    CommandView::Play => PlaybackState::Playing,
                    CommandView::Pause => PlaybackState::Paused,
                    CommandView::Stop => PlaybackState::Stopped,
                    _ => v.state,
                }
            } else {
                v.state
            },
            _ => v.state,
        },
        match op {
            SessionOp::Execute(e) => !v.records.contains_key(e.request_id) && fresh_accepted(v, e)
                ==> match e.command {
                CommandView::Seek(p) => op_step(v, op).position_ms == p,
                _ => true,
            },
            _ => true,
        },
{
}

/// The request ids a sequence executes.
pub open spec fn executed_ids(ops: Seq<SessionOp>) -> Set<Seq<char>>
    decreases ops.len(),
{
    if ops.len() == 0 {
        Set::empty()
    } else {
        match ops.last() {
            SessionOp::Execute(e) => executed_ids(ops.drop_last()).insert(e.request_id),
            _ => executed_ids(ops.drop_last()),
        }
    }
}

/// Request ids are never forgotten: after any sequence of operations the
/// session knows exactly the ids it knew and those the sequence executed,
/// whatever those calls answered, and the outcome remembered for an id
/// never changes.
pub proof fn law_request_ids_are_remembered(v: PlaybackView, ops: Seq<SessionOp>)
    ensures
        run(v, ops).records.dom() == v.records.dom().union(executed_ids(ops)),
        forall|k: Seq<char>| #[trigger] v.records.contains_key(k) ==> run(v, ops).records[k] == v.records[k],
    decreases ops.len(),
{
    if ops.len() > 0 {
        law_request_ids_are_remembered(v, ops.drop_last());
        assert(run(v, ops).records.dom() =~= v.records.dom().union(executed_ids(ops)));
    }
}

/// A handoff begun by a new, accepted command carries the ticket made from
/// the session as it was: the current item and active display, the target,
/// a candidate generation above the active one, and a transition id that is
/// the session's next one. No candidate position is known yet.
pub proof fn law_handoff_ticket(v: PlaybackView, e: EnvelopeView, target: Seq<char>)
    requires
        session_wf(v),
        !v.records.contains_key(e.request_id),
        fresh_accepted(v, e),
        e.command == CommandView::BeginHandoff(target),
        execute_room(v, e),
    ensures
        ({
            let (n, out) = execute_step(v, e);
            let t = new_ticket(v, target);
            &&& out == Ok::<ResultView, CommandError>(
                ResultView { request_id: e.request_id, session_revision: n.session_revision, transition: Some(t) },
            )
            &&& n.handoff == Some(HandoffView { ticket: t, candidate_position_ms: None, candidate_telemetry_sequence: 0 })
            &&& t.target_display_id == target
            &&& t.item_id == v.item.item_id && t.item_revision == v.item.item_revision
            &&& t.from_display_id == v.active_display.display_id
            &&& t.from_generation == v.active_display.generation
            &&& t.candidate_generation > v.active_display.generation
            &&& t.transition_id == v.next_transition_id
            &&& n.next_transition_id == v.next_transition_id + 1
        }),
{
}

/// Every operation keeps the structural invariant, and the next transition
/// id never goes back, so each ticket issued carries an id above every
/// ticket issued before it.
pub proof fn law_transition_ids_increase(v: PlaybackView, ops: Seq<SessionOp>)
    requires
        session_wf(v),
        run_ok(v, ops),
    ensures
        session_wf(run(v, ops)),
        run(v, ops).next_transition_id >= v.next_transition_id,
        run(v, ops).handoff is Some ==> run(v, ops).handoff->0.ticket.transition_id < run(v, ops).next_transition_id,
    decreases ops.len(),
{
    if ops.len() > 0 {
        law_transition_ids_increase(v, ops.drop_last());
    }
}

/// The candidate position lives in the handoff, so it exists only during
/// one. A newly begun handoff has none; an accepted candidate observation
/// sets it; switching the item and committing, expiring or cancelling the
/// handoff drop it; nothing else changes the handoff.
pub proof fn law_candidate_position(v: PlaybackView, op: SessionOp)
    ensures
        match op {
            SessionOp::CandidateCallback(t, q, p) => if candidate_step(v, t, q, p).1 {
                op_step(v, op).handoff == Some(
                    HandoffView {
                        candidate_position_ms: Some(p),
                        candidate_telemetry_sequence: q,
                        ..v.handoff->0
                    },
                )
            } else {
                op_step(v, op).handoff == v.handoff
            },
            SessionOp::Execute(e) => if !v.records.contains_key(e.request_id) && fresh_accepted(v, e)
                && e.command is BeginHandoff {
                op_step(v, op).handoff is Some && op_step(v, op).handoff->0.candidate_position_ms is None
            } else {
                op_step(v, op).handoff == v.handoff
            },
            SessionOp::SwitchItem(_, _) => op_step(v, op).handoff is None,
            SessionOp::CommitHandoff(t) => if handoff_current(v, t) {
                op_step(v, op).handoff is None
            } else {
                op_step(v, op).handoff == v.handoff
            },
            SessionOp::ExpireHandoff(t) => if handoff_matches(v, t) {
                op_step(v, op).handoff is None
            } else {
                op_step(v, op).handoff == v.handoff
            },
            SessionOp::CancelHandoff(t) => if handoff_matches(v, t) {
                op_step(v, op).handoff is None
            } else {
                op_step(v, op).handoff == v.handoff
            },
            _ => op_step(v, op).handoff == v.handoff,
        },
{
}

/// The active telemetry sequence changes only on an accepted position
/// observation, to the given larger sequence, and is reset to 0 by a
/// switch of item; a candidate observation changes neither it nor the
/// position.
pub proof fn law_telemetry_step(v: PlaybackView, op: SessionOp)
    ensures
        match op {
            SessionOp::SwitchItem(_, _) => op_step(v, op).telemetry_sequence == 0,
            SessionOp::PositionCallback(i, r, q, p) => if position_step(v, i, r, q, p).1 {
                op_step(v, op).telemetry_sequence == q && q > v.telemetry_sequence
            } else {
                op_step(v, op).telemetry_sequence == v.telemetry_sequence
            },
            SessionOp::DisplayPositionCallback(d, g, i, r, q, p) => if display_position_step(
                v,
                d,
                g,
                i,
                r,
                q,
                p,
            ).1 {
                op_step(v, op).telemetry_sequence == q && q > v.telemetry_sequence
            } else {
                op_step(v, op).telemetry_sequence == v.telemetry_sequence
            },
            SessionOp::CandidateCallback(_, _, _) => op_step(v, op).telemetry_sequence
                == v.telemetry_sequence && op_step(v, op).position_ms == v.position_ms,
            _ => op_step(v, op).telemetry_sequence == v.telemetry_sequence,
        },
        !(op is SwitchItem) ==> op_step(v, op).telemetry_sequence >= v.telemetry_sequence,
{
}

/// Without a switch of item, the active telemetry sequence never goes back.
pub proof fn law_telemetry_never_decreases(v: PlaybackView, ops: Seq<SessionOp>)
    requires
        forall|i: int| 0 <= i < ops.len() ==> !(#[trigger] ops[i] is SwitchItem),
    ensures
        run(v, ops).telemetry_sequence >= v.telemetry_sequence,
    decreases ops.len(),
{
    if ops.len() > 0 {
        let d = ops.drop_last();
        assert forall|i: int| 0 <= i < d.len() implies !(#[trigger] d[i] is SwitchItem) by {
            assert(d[i] == ops[i]);
        }
        law_telemetry_never_decreases(v, d);
        assert(!(ops[ops.len() - 1] is SwitchItem));
        law_telemetry_step(run(v, d), ops.last());
    }
}

/// Cancelling a handoff is exactly expiring it.
pub proof fn law_cancel_is_expire(v: PlaybackView, t: TicketView)
    ensures
        op_step(v, SessionOp::CancelHandoff(t)) == op_step(v, SessionOp::ExpireHandoff(t)),
        op_room(v, SessionOp::CancelHandoff(t)) == op_room(v, SessionOp::ExpireHandoff(t)),
{
}

/// The active display changes only when a handoff is committed: it becomes
/// the handoff's target at the candidate generation, above the one before.
pub proof fn law_active_display_changes_only_on_commit(v: PlaybackView, op: SessionOp)
    requires
        session_wf(v),
    ensures
        match op {
            SessionOp::CommitHandoff(t) => if handoff_current(v, t) {
                op_step(v, op).active_display == (DisplayView {
                    display_id: t.target_display_id,
                    generation: t.candidate_generation,
                }) && t.candidate_generation > v.active_display.generation
            } else {
                op_step(v, op).active_display == v.active_display
            },
            _ => op_step(v, op).active_display == v.active_display,
        },
{
}

/// A media-refresh commit is accepted exactly when its ticket names the
/// current item, item revision and media generation. An accepted commit
/// makes the media passed in the current item's resolved media and raises
/// the session revision by one, leaving the item's identity, revision and
/// generation, the playback state, position and active display as they
/// were; a refused commit changes nothing.
pub proof fn law_refresh_commit_installs_media(
    v: PlaybackView,
    t: RefreshTicketView,
    resolved_media: Seq<char>,
)
    ensures
        ({
            let (w, accepted) = refresh_commit_step(v, t, resolved_media);
            &&& accepted == (t.item_id == v.item.item_id && t.item_revision == v.item.item_revision
                && t.generation == v.item.media_generation)
            &&& accepted ==> {
                &&& w.item.resolved_media == resolved_media
                &&& (v.session_revision < u64::MAX ==> w.session_revision == v.session_revision + 1)
                &&& w.item.item_id == v.item.item_id
                &&& w.item.item_revision == v.item.item_revision
                &&& w.item.media_generation == v.item.media_generation
                &&& w.state == v.state
                &&& w.position_ms == v.position_ms
                &&& w.active_display == v.active_display
                &&& w.handoff == v.handoff
            }
            &&& !accepted ==> w == v
        }),
{
}

/// The ticket that beginning a media refresh hands out is accepted by the
/// commit that follows, which installs the media passed to it.
pub proof fn law_begun_refresh_commits(v: PlaybackView, resolved_media: Seq<char>)
    requires
        v.item.media_generation < u64::MAX,
        v.session_revision < u64::MAX,
    ensures
        ({
            let v1 = refresh_begin_step(v);
            let t = RefreshTicketView {
                item_id: v.item.item_id,
                item_revision: v.item.item_revision,
                generation: (v.item.media_generation + 1) as u64,
            };
            let (w, accepted) = refresh_commit_step(v1, t, resolved_media);
            &&& accepted
            &&& w.item.resolved_media == resolved_media
            &&& w.item.media_generation == v.item.media_generation + 1
            &&& w.session_revision == v.session_revision + 1
        }),
{
}

} // verus!
