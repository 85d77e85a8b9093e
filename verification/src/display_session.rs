//! Generic web display registration and page-instance lease authority.
//!
//! This module owns browser-page liveness only. The playback item, session
//! revision, active display and display generation stay with the playback
//! authority behind the control service.

use crate::control::{
    after_candidate_telemetry, after_display_telemetry, candidate_accepted, snapshot_of, ControlHandoffSnapshot, ControlService, ControlSnapshot, DisplayPositionTelemetry,
    HandoffSnapshotView, SnapshotView,
};
use crate::display_adapter::{
    DisplayAdapterError, DisplayContext, DisplayContextView, DisplayInstance, DisplayStatus,
    PlaybackObservation, PositionSample,
};
use crate::ids::{is_opaque_token, new_opaque_token, now_ms};
use crate::playback::position_accepted;
use crate::text::{
    all_ident_chars, all_ident_chars_exec, byte_len, has_control, has_control_exec, is_ident_char,
    is_ident_char_exec, chars_of, clone_strings, strings_view, lex_less, lex_lt,
    lemma_lex_total, lemma_lex_transitive,
};
use vstd::prelude::*;

verus! {

pub const DEFAULT_WEB_DISPLAY_LEASE_TTL_MS: u64 = 30000;

pub const MAX_IDENTIFIER_BYTES: usize = 128;

pub const MAX_LABEL_BYTES: usize = 128;

pub const MAX_CAPABILITIES: usize = 32;

#[derive(Clone, Debug)]
pub struct DisplayRegistration {
    /// Optional initial attachment. Registration is valid before a playback
    /// session exists; context lookup is the attachment boundary.
    pub session_id: Option<String>,
    pub display_id: String,
    pub label: String,
    pub capabilities: Vec<String>,
    pub previous_registration_id: Option<String>,
    pub previous_lease_token: Option<String>,
}

#[derive(Clone, Debug)]
pub struct DisplayRegistrationResponse {
    pub registration_id: String,
    pub display_id: String,
    pub lease_token: String,
    pub page_lease_epoch: u64,
    pub lease_ttl_ms: u64,
    pub context: Option<DisplayContextResponse>,
}

#[derive(Clone, Debug)]
pub struct DisplayHeartbeatResponse {
    pub registration_id: String,
    pub display_id: String,
    pub page_lease_epoch: u64,
    pub lease_ttl_ms: u64,
    pub online: bool,
}

#[derive(Clone, Debug)]
pub struct LiveDisplayView {
    pub display_id: String,
    pub label: String,
    pub capabilities: Vec<String>,
    pub online: bool,
}

#[derive(Clone, Debug)]
pub struct DisplayContextResponse {
    pub registration_id: String,
    pub session_id: String,
    pub display_id: String,
    pub authority_display_id: String,
    pub item_id: String,
    pub item_revision: u64,
    pub session_revision: u64,
    pub display_generation: u64,
    pub state: String,
    pub position_ms: u64,
    pub telemetry_sequence: u64,
    pub handoff: Option<ControlHandoffSnapshot>,
    pub is_current_display: bool,
    pub is_handoff_candidate: bool,
    pub media_capabilities: Vec<String>,
}

#[derive(Clone, Debug)]
pub struct DisplayCallback {
    pub lease_token: String,
    pub session_id: String,
    pub item_id: String,
    pub item_revision: u64,
    pub session_revision: u64,
    pub display_id: String,
    pub display_generation: u64,
    pub telemetry_sequence: Option<u64>,
    pub position_ms: Option<u64>,
    pub observation: Option<WebDisplayObservation>,
    pub error_code: Option<WebDisplayErrorCode>,
}

#[derive(Clone, Copy, Debug, PartialEq, Eq, Structural)]
pub enum WebDisplayObservation {
    Playing,
    Paused,
    Stopped,
    Unknown,
}

#[derive(Clone, Copy, Debug, PartialEq, Eq, Structural)]
pub enum WebDisplayErrorCode {
    InvalidConfiguration,
    ServerUnavailable,
    MediaIncompatible,
    CommandRejected,
    PlaybackNotConfirmed,
    Timeout,
    Cancelled,
    ProtocolError,
}

#[derive(Clone, Debug)]
pub struct DisplayCallbackResponse {
    pub accepted: bool,
    pub candidate_observation: bool,
    pub telemetry_accepted: bool,
    pub session_revision: u64,
    pub telemetry_sequence: u64,
    pub context: DisplayContextResponse,
}

#[derive(Clone, Debug)]
pub struct DisplaySessionErrorResponse {
    pub code: &'static str,
    pub message: &'static str,
}

#[derive(Clone, Copy, Debug, Eq, PartialEq)]
pub enum DisplaySessionError {
    SessionNotFound,
    SessionNotAttached,
    InvalidIdentifier(&'static str),
    InvalidLabel,
    InvalidCapabilities,
    RegistrationNotFound,
    LeaseInvalid,
    LeaseExpired,
    AlreadyRegistered,
    StaleContext,
    StaleTelemetry,
    InvalidCallback,
}

/// Safe generic display facts for the control projection.
#[derive(Clone, Debug)]
pub struct DisplayViewInput {
    pub instance: Option<DisplayInstance>,
    pub status: Option<DisplayStatus>,
    pub error: Option<DisplayAdapterError>,
}

// ---------------------------------------------------------------------------
// Error codes
// ---------------------------------------------------------------------------

pub open spec fn error_code(e: DisplaySessionError) -> Seq<char> {
    match e {
        DisplaySessionError::SessionNotFound => "SESSION_NOT_FOUND"@,
        DisplaySessionError::SessionNotAttached => "SESSION_NOT_ATTACHED"@,
        DisplaySessionError::InvalidIdentifier(_) => "IDENTIFIER_INVALID"@,
        DisplaySessionError::InvalidLabel => "LABEL_INVALID"@,
        DisplaySessionError::InvalidCapabilities => "CAPABILITIES_INVALID"@,
        DisplaySessionError::RegistrationNotFound => "REGISTRATION_NOT_FOUND"@,
        DisplaySessionError::LeaseInvalid => "LEASE_INVALID"@,
        DisplaySessionError::LeaseExpired => "LEASE_EXPIRED"@,
        DisplaySessionError::AlreadyRegistered => "DISPLAY_ALREADY_REGISTERED"@,
        DisplaySessionError::StaleContext => "STALE_DISPLAY_CONTEXT"@,
        DisplaySessionError::StaleTelemetry => "STALE_TELEMETRY"@,
        DisplaySessionError::InvalidCallback => "INVALID_CALLBACK"@,
    }
}

pub open spec fn error_message(e: DisplaySessionError) -> Seq<char> {
    match e {
        DisplaySessionError::SessionNotFound => "playback session was not found"@,
        DisplaySessionError::SessionNotAttached => "display is not attached to a playback session"@,
        DisplaySessionError::InvalidIdentifier(_) => "identifier is invalid"@,
        DisplaySessionError::InvalidLabel => "display label is invalid"@,
        DisplaySessionError::InvalidCapabilities => "display capabilities are invalid"@,
        DisplaySessionError::RegistrationNotFound => "display registration was not found"@,
        DisplaySessionError::LeaseInvalid => "display lease is invalid"@,
        DisplaySessionError::LeaseExpired => "display lease has expired"@,
        DisplaySessionError::AlreadyRegistered => "display is already registered"@,
        DisplaySessionError::StaleContext => "display callback context is stale"@,
        DisplaySessionError::StaleTelemetry => "display telemetry is stale"@,
        DisplaySessionError::InvalidCallback => "display callback is invalid"@,
    }
}

/// The HTTP status a display-session error is answered with.
pub open spec fn display_error_status(e: DisplaySessionError) -> u16 {
    match e {
        DisplaySessionError::SessionNotFound | DisplaySessionError::SessionNotAttached
        | DisplaySessionError::RegistrationNotFound => 404,
        DisplaySessionError::LeaseInvalid | DisplaySessionError::LeaseExpired => 401,
        DisplaySessionError::AlreadyRegistered | DisplaySessionError::StaleContext
        | DisplaySessionError::StaleTelemetry => 409,
        DisplaySessionError::InvalidIdentifier(_) | DisplaySessionError::InvalidLabel
        | DisplaySessionError::InvalidCapabilities | DisplaySessionError::InvalidCallback => 400,
    }
}

impl DisplaySessionError {
    pub fn http_status(&self) -> (r: u16)
        ensures
            r == display_error_status(*self),
    {
        match self {
            DisplaySessionError::SessionNotFound | DisplaySessionError::SessionNotAttached
            | DisplaySessionError::RegistrationNotFound => 404,
            DisplaySessionError::LeaseInvalid | DisplaySessionError::LeaseExpired => 401,
            DisplaySessionError::AlreadyRegistered | DisplaySessionError::StaleContext
            | DisplaySessionError::StaleTelemetry => 409,
            DisplaySessionError::InvalidIdentifier(_) | DisplaySessionError::InvalidLabel
            | DisplaySessionError::InvalidCapabilities | DisplaySessionError::InvalidCallback => 400,
        }
    }

    pub fn code(&self) -> (r: &'static str)
        ensures
            r@ == error_code(*self),
    {
        match self {
            DisplaySessionError::SessionNotFound => "SESSION_NOT_FOUND",
            DisplaySessionError::SessionNotAttached => "SESSION_NOT_ATTACHED",
            DisplaySessionError::InvalidIdentifier(_) => "IDENTIFIER_INVALID",
            DisplaySessionError::InvalidLabel => "LABEL_INVALID",
            DisplaySessionError::InvalidCapabilities => "CAPABILITIES_INVALID",
            DisplaySessionError::RegistrationNotFound => "REGISTRATION_NOT_FOUND",
            DisplaySessionError::LeaseInvalid => "LEASE_INVALID",
            DisplaySessionError::LeaseExpired => "LEASE_EXPIRED",
            DisplaySessionError::AlreadyRegistered => "DISPLAY_ALREADY_REGISTERED",
            DisplaySessionError::StaleContext => "STALE_DISPLAY_CONTEXT",
            DisplaySessionError::StaleTelemetry => "STALE_TELEMETRY",
            DisplaySessionError::InvalidCallback => "INVALID_CALLBACK",
        }
    }

    pub fn message(&self) -> (r: &'static str)
        ensures
            r@ == error_message(*self),
    {
        match self {
            DisplaySessionError::SessionNotFound => "playback session was not found",
            DisplaySessionError::SessionNotAttached => "display is not attached to a playback session",
            DisplaySessionError::InvalidIdentifier(_) => "identifier is invalid",
            DisplaySessionError::InvalidLabel => "display label is invalid",
            DisplaySessionError::InvalidCapabilities => "display capabilities are invalid",
            DisplaySessionError::RegistrationNotFound => "display registration was not found",
            DisplaySessionError::LeaseInvalid => "display lease is invalid",
            DisplaySessionError::LeaseExpired => "display lease has expired",
            DisplaySessionError::AlreadyRegistered => "display is already registered",
            DisplaySessionError::StaleContext => "display callback context is stale",
            DisplaySessionError::StaleTelemetry => "display telemetry is stale",
            DisplaySessionError::InvalidCallback => "display callback is invalid",
        }
    }

    pub fn response(&self) -> (r: DisplaySessionErrorResponse)
        ensures
            r.code@ == error_code(*self),
            r.message@ == error_message(*self),
    {
        DisplaySessionErrorResponse { code: self.code(), message: self.message() }
    }
}

pub open spec fn adapter_error_of(c: WebDisplayErrorCode) -> DisplayAdapterErrorKind {
    match c {
        WebDisplayErrorCode::InvalidConfiguration => DisplayAdapterErrorKind::InvalidConfiguration,
        WebDisplayErrorCode::ServerUnavailable => DisplayAdapterErrorKind::ServerUnavailable,
        WebDisplayErrorCode::MediaIncompatible => DisplayAdapterErrorKind::MediaIncompatible,
        WebDisplayErrorCode::CommandRejected => DisplayAdapterErrorKind::CommandRejected,
        WebDisplayErrorCode::PlaybackNotConfirmed => DisplayAdapterErrorKind::PlaybackNotConfirmed(0),
        WebDisplayErrorCode::Timeout => DisplayAdapterErrorKind::Timeout,
        WebDisplayErrorCode::Cancelled => DisplayAdapterErrorKind::Cancelled,
        WebDisplayErrorCode::ProtocolError => DisplayAdapterErrorKind::Protocol("[redacted]"@),
    }
}

pub open spec fn adapter_error_view(e: DisplayAdapterError) -> DisplayAdapterErrorKind {
    match e {
        DisplayAdapterError::InvalidConfiguration => DisplayAdapterErrorKind::InvalidConfiguration,
        DisplayAdapterError::ServerUnavailable => DisplayAdapterErrorKind::ServerUnavailable,
        DisplayAdapterError::AuthenticationFailed => DisplayAdapterErrorKind::AuthenticationFailed,
        DisplayAdapterError::TargetMissing => DisplayAdapterErrorKind::TargetMissing,
        DisplayAdapterError::TargetOffline => DisplayAdapterErrorKind::TargetOffline,
        DisplayAdapterError::TargetAmbiguous => DisplayAdapterErrorKind::TargetAmbiguous,
        DisplayAdapterError::MediaIncompatible => DisplayAdapterErrorKind::MediaIncompatible,
        DisplayAdapterError::CommandRejected => DisplayAdapterErrorKind::CommandRejected,
        DisplayAdapterError::PlaybackNotConfirmed { timeout_ms } => DisplayAdapterErrorKind::PlaybackNotConfirmed(timeout_ms),
        DisplayAdapterError::Timeout => DisplayAdapterErrorKind::Timeout,
        DisplayAdapterError::Cancelled => DisplayAdapterErrorKind::Cancelled,
        DisplayAdapterError::StaleContext => DisplayAdapterErrorKind::StaleContext,
        DisplayAdapterError::Protocol(s) => DisplayAdapterErrorKind::Protocol(s@),
    }
}

/// The model of a display adapter error.
pub enum DisplayAdapterErrorKind {
    InvalidConfiguration,
    ServerUnavailable,
    AuthenticationFailed,
    TargetMissing,
    TargetOffline,
    TargetAmbiguous,
    MediaIncompatible,
    CommandRejected,
    PlaybackNotConfirmed(u64),
    Timeout,
    Cancelled,
    StaleContext,
    Protocol(Seq<char>),
}

impl WebDisplayErrorCode {
    /// No caller-provided protocol text is accepted or retained.
    pub fn adapter_error(self) -> (r: DisplayAdapterError)
        ensures
            adapter_error_view(r) == adapter_error_of(self),
    {
        match self {
            WebDisplayErrorCode::InvalidConfiguration => DisplayAdapterError::InvalidConfiguration,
            WebDisplayErrorCode::ServerUnavailable => DisplayAdapterError::ServerUnavailable,
            WebDisplayErrorCode::MediaIncompatible => DisplayAdapterError::MediaIncompatible,
            WebDisplayErrorCode::CommandRejected => DisplayAdapterError::CommandRejected,
            WebDisplayErrorCode::PlaybackNotConfirmed => DisplayAdapterError::PlaybackNotConfirmed {
                timeout_ms: 0,
            },
            WebDisplayErrorCode::Timeout => DisplayAdapterError::Timeout,
            WebDisplayErrorCode::Cancelled => DisplayAdapterError::Cancelled,
            WebDisplayErrorCode::ProtocolError => DisplayAdapterError::Protocol(
                "[redacted]".to_owned(),
            ),
        }
    }
}

pub open spec fn observation_of(o: WebDisplayObservation) -> PlaybackObservation {
    match o {
        WebDisplayObservation::Playing => PlaybackObservation::Playing,
        WebDisplayObservation::Paused => PlaybackObservation::Paused,
        WebDisplayObservation::Stopped => PlaybackObservation::Stopped,
        WebDisplayObservation::Unknown => PlaybackObservation::Unknown,
    }
}

impl WebDisplayObservation {
    pub fn playback_observation(self) -> (r: PlaybackObservation)
        ensures
            r == observation_of(self),
    {
        match self {
            WebDisplayObservation::Playing => PlaybackObservation::Playing,
            WebDisplayObservation::Paused => PlaybackObservation::Paused,
            WebDisplayObservation::Stopped => PlaybackObservation::Stopped,
            WebDisplayObservation::Unknown => PlaybackObservation::Unknown,
        }
    }
}

// ---------------------------------------------------------------------------
// Input rules
// ---------------------------------------------------------------------------

/// A bounded display-side identifier.
pub open spec fn identifier_ok(s: Seq<char>) -> bool {
    s.len() > 0 && byte_len(s) <= MAX_IDENTIFIER_BYTES && all_ident_chars(s)
}

pub open spec fn label_ok(s: Seq<char>) -> bool {
    s.len() > 0 && byte_len(s) <= MAX_LABEL_BYTES && !has_control(s)
}

pub open spec fn is_capability_char(c: char) -> bool {
    is_ident_char(c) || c == '/'
}

pub open spec fn capability_ok(s: Seq<char>) -> bool {
    &&& s.len() > 0
    &&& byte_len(s) <= MAX_IDENTIFIER_BYTES
    &&& forall|i: int| 0 <= i < s.len() ==> is_capability_char(#[trigger] s[i])
}

pub open spec fn capabilities_ok(cs: Seq<Seq<char>>) -> bool {
    cs.len() <= MAX_CAPABILITIES && forall|i: int| 0 <= i < cs.len() ==> capability_ok(#[trigger] cs[i])
}

/// The capabilities a display may advertise to the projection.
pub open spec fn is_safe_capability(s: Seq<char>) -> bool {
    s == "video"@ || s == "audio"@ || s == "subtitles"@
}

pub open spec fn safe_capabilities_spec(cs: Seq<Seq<char>>) -> Seq<Seq<char>> {
    cs.filter(|c: Seq<char>| is_safe_capability(c))
}


fn bounded_identifier(value: &str) -> (r: bool)
    ensures
        r == identifier_ok(value@),
{
    !value.is_empty() && value.as_bytes().len() <= MAX_IDENTIFIER_BYTES && all_ident_chars_exec(value)
}

fn validate_identifier(value: &str, field: &'static str) -> (r: Result<(), DisplaySessionError>)
    ensures
        r is Ok == identifier_ok(value@),
        r is Err ==> r == Err::<(), DisplaySessionError>(DisplaySessionError::InvalidIdentifier(field)),
{
    if !bounded_identifier(value) {
        return Err(DisplaySessionError::InvalidIdentifier(field));
    }
    Ok(())
}

fn validate_label(value: &str) -> (r: Result<(), DisplaySessionError>)
    ensures
        r is Ok == label_ok(value@),
        r is Err ==> r == Err::<(), DisplaySessionError>(DisplaySessionError::InvalidLabel),
{
    if value.is_empty() || value.as_bytes().len() > MAX_LABEL_BYTES || has_control_exec(value) {
        return Err(DisplaySessionError::InvalidLabel);
    }
    Ok(())
}

fn capability_valid(value: &str) -> (r: bool)
    ensures
        r == capability_ok(value@),
{
    if value.is_empty() || value.as_bytes().len() > MAX_IDENTIFIER_BYTES {
        return false;
    }
    let v = chars_of(value);
    let mut i: usize = 0;
    while i < v.len()
        invariant
            v@ == value@,
            i <= v@.len(),
            forall|j: int| 0 <= j < i ==> is_capability_char(#[trigger] v@[j]),
        decreases v@.len() - i,
    {
        if !(is_ident_char_exec(v[i]) || v[i] == '/') {
            return false;
        }
        i = i + 1;
    }
    true
}

fn validate_capabilities(values: &Vec<String>) -> (r: Result<(), DisplaySessionError>)
    ensures
        r is Ok == capabilities_ok(strings_view(values@)),
        r is Err ==> r == Err::<(), DisplaySessionError>(DisplaySessionError::InvalidCapabilities),
{
    if values.len() > MAX_CAPABILITIES {
        return Err(DisplaySessionError::InvalidCapabilities);
    }
    let mut i: usize = 0;
    while i < values.len()
        invariant
            i <= values@.len(),
            values@.len() <= MAX_CAPABILITIES,
            forall|j: int| 0 <= j < i ==> capability_ok(#[trigger] strings_view(values@)[j]),
        decreases values@.len() - i,
    {
        if !capability_valid(values[i].as_str()) {
            assert(strings_view(values@)[i as int] == values@[i as int]@);
            return Err(DisplaySessionError::InvalidCapabilities);
        }
        i = i + 1;
    }
    Ok(())
}

fn is_safe_capability_exec(value: &String) -> (r: bool)
    ensures
        r == is_safe_capability(value@),
{
    let video = "video".to_owned();
    let audio = "audio".to_owned();
    let subtitles = "subtitles".to_owned();
    value.eq(&video) || value.eq(&audio) || value.eq(&subtitles)
}

fn safe_capabilities(values: &Vec<String>) -> (r: Vec<String>)
    ensures
        strings_view(r@) == safe_capabilities_spec(strings_view(values@)),
{
    let mut out: Vec<String> = Vec::new();
    let mut i: usize = 0;
    proof {
        reveal(Seq::filter);
        assert(strings_view(values@).subrange(0, 0).len() == 0);
    }
    while i < values.len()
        invariant
            i <= values@.len(),
            strings_view(out@) == safe_capabilities_spec(strings_view(values@).subrange(0, i as int)),
        decreases values@.len() - i,
    {
        let ghost prefix = strings_view(values@).subrange(0, i as int);
        proof {
            reveal(Seq::filter);
            assert(strings_view(values@).subrange(0, i + 1) =~= prefix.push(values@[i as int]@));
            assert(prefix.push(values@[i as int]@).drop_last() =~= prefix);
        }
        let ghost before = out@;
        if is_safe_capability_exec(&values[i]) {
            out.push(values[i].clone());
            assert(strings_view(out@) =~= strings_view(before).push(values@[i as int]@));
        }
        i = i + 1;
    }
    assert(strings_view(values@).subrange(0, values@.len() as int) =~= strings_view(values@));
    out
}



// ---------------------------------------------------------------------------
// Registry model
// ---------------------------------------------------------------------------

#[derive(Clone, Debug)]
struct DisplayObservationRecord {
    context: DisplayContext,
    observation: WebDisplayObservation,
    position_ms: u64,
    error: Option<WebDisplayErrorCode>,
}

#[derive(Clone, Debug)]
struct DisplayRecord {
    registration_id: String,
    display_id: String,
    session_id: Option<String>,
    lease_token: String,
    page_lease_epoch: u64,
    expires_at: u64,
    label: String,
    capabilities: Vec<String>,
    observation: Option<DisplayObservationRecord>,
}

pub struct ObservationView {
    pub context: DisplayContextView,
    pub observation: WebDisplayObservation,
    pub position_ms: u64,
    pub error: Option<WebDisplayErrorCode>,
}

/// One registered page instance of a display.
pub struct DisplayRecordView {
    pub registration_id: Seq<char>,
    pub display_id: Seq<char>,
    pub session_id: Option<Seq<char>>,
    pub lease_token: Seq<char>,
    pub page_lease_epoch: u64,
    pub expires_at: u64,
    pub label: Seq<char>,
    pub capabilities: Seq<Seq<char>>,
    pub observation: Option<ObservationView>,
}

pub struct RegistryView {
    pub records: Seq<DisplayRecordView>,
    pub lease_ttl_ms: u64,
}

pub open spec fn opt_string_view(o: Option<String>) -> Option<Seq<char>> {
    match o {
        Some(s) => Some(s@),
        None => None,
    }
}

pub open spec fn opt_str_view(o: Option<&str>) -> Option<Seq<char>> {
    match o {
        Some(s) => Some(s@),
        None => None,
    }
}

spec fn observation_view(o: Option<DisplayObservationRecord>) -> Option<ObservationView> {
    match o {
        Some(r) => Some(
            ObservationView {
                context: r.context@,
                observation: r.observation,
                position_ms: r.position_ms,
                error: r.error,
            },
        ),
        None => None,
    }
}

spec fn record_view(r: DisplayRecord) -> DisplayRecordView {
    DisplayRecordView {
        registration_id: r.registration_id@,
        display_id: r.display_id@,
        session_id: opt_string_view(r.session_id),
        lease_token: r.lease_token@,
        page_lease_epoch: r.page_lease_epoch,
        expires_at: r.expires_at,
        label: r.label@,
        capabilities: strings_view(r.capabilities@),
        observation: observation_view(r.observation),
    }
}

pub open spec fn records_distinct(s: Seq<DisplayRecordView>) -> bool {
    forall|i: int, j: int|
        0 <= i < s.len() && 0 <= j < s.len() && i != j ==> #[trigger] s[i].display_id
            != #[trigger] s[j].display_id
}

/// The position of the record of display `d`, if it is registered.
pub open spec fn display_index(s: Seq<DisplayRecordView>, d: Seq<char>) -> Option<int> {
    if exists|i: int| 0 <= i < s.len() && #[trigger] s[i].display_id == d {
        Some(choose|i: int| 0 <= i < s.len() && #[trigger] s[i].display_id == d)
    } else {
        None
    }
}

/// The position of the first record that carries registration id `id`.
pub open spec fn registration_index(s: Seq<DisplayRecordView>, id: Seq<char>) -> Option<int> {
    if exists|i: int| 0 <= i < s.len() && #[trigger] s[i].registration_id == id {
        Some(
            choose|i: int|
                0 <= i < s.len() && #[trigger] s[i].registration_id == id && forall|j: int|
                    0 <= j < i ==> s[j].registration_id != id,
        )
    } else {
        None
    }
}

pub open spec fn lease_problem(r: DisplayRecordView, token: Seq<char>, now: u64) -> Option<
    DisplaySessionError,
> {
    if r.lease_token != token {
        Some(DisplaySessionError::LeaseInvalid)
    } else if r.expires_at <= now {
        Some(DisplaySessionError::LeaseExpired)
    } else {
        None
    }
}

pub open spec fn saturating_add(a: u64, b: u64) -> u64 {
    if a + b > u64::MAX {
        u64::MAX
    } else {
        (a + b) as u64
    }
}

pub struct ContextView {
    pub registration_id: Seq<char>,
    pub session_id: Seq<char>,
    pub display_id: Seq<char>,
    pub authority_display_id: Seq<char>,
    pub item_id: Seq<char>,
    pub item_revision: u64,
    pub session_revision: u64,
    pub display_generation: u64,
    pub state: Seq<char>,
    pub position_ms: u64,
    pub telemetry_sequence: u64,
    pub handoff: Option<HandoffSnapshotView>,
    pub is_current_display: bool,
    pub is_handoff_candidate: bool,
    pub media_capabilities: Seq<Seq<char>>,
}

impl View for DisplayContextResponse {
    type V = ContextView;

    open spec fn view(&self) -> ContextView {
        ContextView {
            registration_id: self.registration_id@,
            session_id: self.session_id@,
            display_id: self.display_id@,
            authority_display_id: self.authority_display_id@,
            item_id: self.item_id@,
            item_revision: self.item_revision,
            session_revision: self.session_revision,
            display_generation: self.display_generation,
            state: self.state@,
            position_ms: self.position_ms,
            telemetry_sequence: self.telemetry_sequence,
            handoff: match self.handoff {
                Some(h) => Some(h@),
                None => None,
            },
            is_current_display: self.is_current_display,
            is_handoff_candidate: self.is_handoff_candidate,
            media_capabilities: strings_view(self.media_capabilities@),
        }
    }
}

/// The context a page instance sees: playback facts come from the snapshot;
/// the generation is the active one, or the candidate one for the handoff
/// target.
pub open spec fn context_spec(r: DisplayRecordView, s: SnapshotView) -> ContextView {
    let is_current = s.display.display_id == r.display_id;
    let is_candidate = s.handoff is Some && s.handoff->0.ticket.target_display_id == r.display_id;
    ContextView {
        registration_id: r.registration_id,
        session_id: s.session_id,
        display_id: r.display_id,
        authority_display_id: s.display.display_id,
        item_id: s.item_id,
        item_revision: s.item_revision,
        session_revision: s.session_revision,
        display_generation: if is_current {
            s.display.generation
        } else if is_candidate {
            s.handoff->0.ticket.candidate_generation
        } else {
            s.display.generation
        },
        state: s.state,
        position_ms: s.position_ms,
        telemetry_sequence: s.telemetry_sequence,
        handoff: s.handoff,
        is_current_display: is_current,
        is_handoff_candidate: is_candidate,
        media_capabilities: r.capabilities,
    }
}

fn clone_handoff_snapshot(h: &ControlHandoffSnapshot) -> (r: ControlHandoffSnapshot)
    ensures
        r@ == h@,
{
    ControlHandoffSnapshot {
        transition_id: h.transition_id,
        item_id: h.item_id.clone(),
        item_revision: h.item_revision,
        from_display_id: h.from_display_id.clone(),
        from_generation: h.from_generation,
        target_display_id: h.target_display_id.clone(),
        candidate_generation: h.candidate_generation,
        candidate_position_ms: h.candidate_position_ms,
    }
}

fn context_response(record: &DisplayRecord, snapshot: &ControlSnapshot) -> (r: DisplayContextResponse)
    ensures
        r@ == context_spec(record_view(*record), snapshot@),
{
    let is_current_display = string_eq(&snapshot.active_display.display_id, &record.display_id);
    let is_handoff_candidate = match &snapshot.handoff {
        Some(h) => string_eq(&h.target_display_id, &record.display_id),
        None => false,
    };
    let display_generation = if is_current_display {
        snapshot.active_display.generation
    } else if is_handoff_candidate {
        match &snapshot.handoff {
            Some(h) => h.candidate_generation,
            None => snapshot.active_display.generation,
        }
    } else {
        snapshot.active_display.generation
    };
    DisplayContextResponse {
        registration_id: record.registration_id.clone(),
        session_id: snapshot.session_id.clone(),
        display_id: record.display_id.clone(),
        authority_display_id: snapshot.active_display.display_id.clone(),
        item_id: snapshot.current_item.item_id.clone(),
        item_revision: snapshot.current_item.item_revision,
        session_revision: snapshot.session_revision,
        display_generation,
        state: snapshot.state.to_owned(),
        position_ms: snapshot.position_ms,
        telemetry_sequence: snapshot.telemetry_sequence,
        handoff: match &snapshot.handoff {
            Some(h) => Some(clone_handoff_snapshot(h)),
            None => None,
        },
        is_current_display,
        is_handoff_candidate,
        media_capabilities: clone_strings(&record.capabilities),
    }
}

fn string_eq(a: &String, b: &String) -> (r: bool)
    ensures
        r == (a@ == b@),
{
    a.eq(b)
}

fn validate_lease(record: &DisplayRecord, lease_token: &str, now: u64) -> (r: Result<
    (),
    DisplaySessionError,
>)
    ensures
        r == (match lease_problem(record_view(*record), lease_token@, now) {
            Some(e) => Err(e),
            None => Ok(()),
        }),
{
    if !crate::playback::str_eq(record.lease_token.as_str(), lease_token) {
        return Err(DisplaySessionError::LeaseInvalid);
    }
    if record.expires_at <= now {
        return Err(DisplaySessionError::LeaseExpired);
    }
    Ok(())
}

pub struct DisplaySessionService {
    records: Vec<DisplayRecord>,
    lease_ttl_ms: u64,
}

impl View for DisplaySessionService {
    type V = RegistryView;

    closed spec fn view(&self) -> RegistryView {
        RegistryView {
            records: self.records@.map_values(|r: DisplayRecord| record_view(r)),
            lease_ttl_ms: self.lease_ttl_ms,
        }
    }
}

impl DisplaySessionService {
    pub open spec fn wf(&self) -> bool {
        &&& self@.lease_ttl_ms > 0
        &&& records_distinct(self@.records)
    }

    pub fn new(lease_ttl_ms: u64) -> (s: Self)
        requires
            lease_ttl_ms > 0,
        ensures
            s.wf(),
            s@.records == Seq::<DisplayRecordView>::empty(),
            s@.lease_ttl_ms == lease_ttl_ms,
    {
        let s = DisplaySessionService { records: Vec::new(), lease_ttl_ms };
        assert(s@.records =~= Seq::<DisplayRecordView>::empty());
        s
    }

    fn ttl_ms(&self) -> (r: u64)
        ensures
            r == self@.lease_ttl_ms,
    {
        self.lease_ttl_ms
    }

    fn find_display(&self, display_id: &str) -> (r: Option<usize>)
        requires
            self.wf(),
        ensures
            r is None ==> display_index(self@.records, display_id@) is None,
            r is Some ==> display_index(self@.records, display_id@) == Some(r->0 as int),
            r is Some ==> r->0 < self@.records.len(),
    {
        let mut i: usize = 0;
        while i < self.records.len()
            invariant
                self.wf(),
                i <= self.records@.len(),
                forall|j: int| 0 <= j < i ==> self@.records[j].display_id != display_id@,
            decreases self.records@.len() - i,
        {
            if crate::playback::str_eq(self.records[i].display_id.as_str(), display_id) {
                assert(self@.records[i as int].display_id == display_id@);
                assert(exists|k: int| 0 <= k < self@.records.len() && #[trigger] self@.records[k].display_id == display_id@);
                let ghost c = choose|k: int| 0 <= k < self@.records.len() && #[trigger] self@.records[k].display_id == display_id@;
                assert(c == i);
                return Some(i);
            }
            i = i + 1;
        }
        proof {
            if exists|k: int| 0 <= k < self@.records.len() && #[trigger] self@.records[k].display_id == display_id@ {
                let c = choose|k: int| 0 <= k < self@.records.len() && #[trigger] self@.records[k].display_id == display_id@;
                assert(self@.records[c].display_id != display_id@);
            }
        }
        None
    }

    fn find_registration(&self, registration_id: &str) -> (r: Option<usize>)
        requires
            self.wf(),
        ensures
            r is None ==> registration_index(self@.records, registration_id@) is None,
            r is Some ==> registration_index(self@.records, registration_id@) == Some(r->0 as int),
            r is Some ==> r->0 < self@.records.len(),
    {
        let mut i: usize = 0;
        while i < self.records.len()
            invariant
                self.wf(),
                i <= self.records@.len(),
                forall|j: int| 0 <= j < i ==> self@.records[j].registration_id != registration_id@,
            decreases self.records@.len() - i,
        {
            if crate::playback::str_eq(self.records[i].registration_id.as_str(), registration_id) {
                assert(self@.records[i as int].registration_id == registration_id@);
                assert(exists|k: int| 0 <= k < self@.records.len() && #[trigger] self@.records[k].registration_id == registration_id@);
                let ghost c = choose|k: int|
                    0 <= k < self@.records.len() && #[trigger] self@.records[k].registration_id == registration_id@ && forall|j: int|
                        0 <= j < k ==> self@.records[j].registration_id != registration_id@;
                assert(0 <= i < self@.records.len() && self@.records[i as int].registration_id == registration_id@ && forall|j: int|
                        0 <= j < i ==> self@.records[j].registration_id != registration_id@);
                proof {
                    if c < i as int {
                        assert(self@.records[c].registration_id != registration_id@);
                    } else if c > i as int {
                        assert(self@.records[i as int].registration_id != registration_id@);
                    }
                }
                return Some(i);
            }
            i = i + 1;
        }
        proof {
            if exists|k: int| 0 <= k < self@.records.len() && #[trigger] self@.records[k].registration_id == registration_id@ {
                let c = choose|k: int| 0 <= k < self@.records.len() && #[trigger] self@.records[k].registration_id == registration_id@;
                assert(self@.records[c].registration_id != registration_id@);
            }
        }
        None
    }
}

pub struct HeartbeatView {
    pub registration_id: Seq<char>,
    pub display_id: Seq<char>,
    pub page_lease_epoch: u64,
    pub lease_ttl_ms: u64,
    pub online: bool,
}

impl View for DisplayHeartbeatResponse {
    type V = HeartbeatView;

    open spec fn view(&self) -> HeartbeatView {
        HeartbeatView {
            registration_id: self.registration_id@,
            display_id: self.display_id@,
            page_lease_epoch: self.page_lease_epoch,
            lease_ttl_ms: self.lease_ttl_ms,
            online: self.online,
        }
    }
}

pub open spec fn result_view<T: View, E>(r: Result<T, E>) -> Result<T::V, E> {
    match r {
        Ok(t) => Ok(t@),
        Err(e) => Err(e),
    }
}

pub open spec fn with_record(reg: RegistryView, i: int, r: DisplayRecordView) -> RegistryView {
    RegistryView { records: reg.records.update(i, r), ..reg }
}

/// A heartbeat renews a live lease of a registered display.
pub open spec fn heartbeat_outcome(
    reg: RegistryView,
    display_id: Seq<char>,
    lease_token: Seq<char>,
    now: u64,
) -> (RegistryView, Result<HeartbeatView, DisplaySessionError>) {
    if !identifier_ok(display_id) {
        (reg, Err(DisplaySessionError::InvalidIdentifier("display_id")))
    } else {
        match display_index(reg.records, display_id) {
            None => (reg, Err(DisplaySessionError::RegistrationNotFound)),
            Some(i) => {
                let r = reg.records[i];
                match lease_problem(r, lease_token, now) {
                    Some(e) => (reg, Err(e)),
                    None => {
                        let r2 = DisplayRecordView {
                            expires_at: saturating_add(now, reg.lease_ttl_ms),
                            ..r
                        };
                        (
                            with_record(reg, i, r2),
                            Ok(
                                HeartbeatView {
                                    registration_id: r.registration_id,
                                    display_id: r.display_id,
                                    page_lease_epoch: r.page_lease_epoch,
                                    lease_ttl_ms: reg.lease_ttl_ms,
                                    online: true,
                                },
                            ),
                        )
                    },
                }
            },
        }
    }
}

/// Reading the context of a page instance; a supplied session attaches the
/// page to that existing session.
pub open spec fn context_outcome(
    reg: RegistryView,
    sessions: Map<Seq<char>, crate::control::JournalView>,
    display_id: Seq<char>,
    lease_token: Seq<char>,
    session_id: Option<Seq<char>>,
    now: u64,
) -> (RegistryView, Result<ContextView, DisplaySessionError>) {
    if !identifier_ok(display_id) {
        (reg, Err(DisplaySessionError::InvalidIdentifier("display_id")))
    } else if session_id is Some && !identifier_ok(session_id->0) {
        (reg, Err(DisplaySessionError::InvalidIdentifier("session_id")))
    } else {
        match display_index(reg.records, display_id) {
            None => (reg, Err(DisplaySessionError::RegistrationNotFound)),
            Some(i) => {
                let r = reg.records[i];
                match lease_problem(r, lease_token, now) {
                    Some(e) => (reg, Err(e)),
                    None => {
                        let sid = if session_id is Some {
                            session_id
                        } else {
                            r.session_id
                        };
                        match sid {
                            None => (reg, Err(DisplaySessionError::SessionNotAttached)),
                            Some(sid) => if !sessions.contains_key(sid) {
                                (reg, Err(DisplaySessionError::SessionNotFound))
                            } else {
                                let r2 = DisplayRecordView { session_id: Some(sid), ..r };
                                (
                                    with_record(reg, i, r2),
                                    Ok(context_spec(r2, snapshot_of(sid, sessions[sid].playback))),
                                )
                            },
                        }
                    },
                }
            },
        }
    }
}

impl DisplaySessionService {
    pub fn heartbeat_at(&mut self, display_id: &str, lease_token: &str, now: u64) -> (r: Result<
        DisplayHeartbeatResponse,
        DisplaySessionError,
    >)
        requires
            old(self).wf(),
        ensures
            final(self).wf(),
            (final(self)@, result_view(r)) == #[trigger] heartbeat_outcome(
                old(self)@,
                display_id@,
                lease_token@,
                now,
            ),
    {
        match validate_identifier(display_id, "display_id") {
            Ok(()) => {},
            Err(e) => {
                return Err(e);
            },
        }
        let i = match self.find_display(display_id) {
            Some(i) => i,
            None => {
                return Err(DisplaySessionError::RegistrationNotFound);
            },
        };
        assert(self@.records[i as int] == record_view(self.records@[i as int]));
        match validate_lease(&self.records[i], lease_token, now) {
            Ok(()) => {},
            Err(e) => {
                return Err(e);
            },
        }
        let expires_at = now.saturating_add(self.lease_ttl_ms);
        let ghost old_records = self.records@;
        self.records[i].expires_at = expires_at;
        proof {
            assert(self.records@ == old_records.update(i as int, self.records@[i as int]));
            assert(self@.records =~= old(self)@.records.update(
                i as int,
                DisplayRecordView { expires_at, ..old(self)@.records[i as int] },
            ));
        }
        let record = &self.records[i];
        Ok(
            DisplayHeartbeatResponse {
                registration_id: record.registration_id.clone(),
                display_id: record.display_id.clone(),
                page_lease_epoch: record.page_lease_epoch,
                lease_ttl_ms: self.lease_ttl_ms,
                online: true,
            },
        )
    }

    pub fn heartbeat(&mut self, display_id: &str, lease_token: &str) -> (r: Result<
        DisplayHeartbeatResponse,
        DisplaySessionError,
    >)
        requires
            old(self).wf(),
        ensures
            final(self).wf(),
            exists|now: u64|
                (final(self)@, result_view(r)) == #[trigger] heartbeat_outcome(
                    old(self)@,
                    display_id@,
                    lease_token@,
                    now,
                ),
    {
        let now = now_ms();
        self.heartbeat_at(display_id, lease_token, now)
    }

    pub fn context_at(
        &mut self,
        control: &ControlService,
        display_id: &str,
        lease_token: &str,
        session_id: Option<&str>,
        now: u64,
    ) -> (r: Result<DisplayContextResponse, DisplaySessionError>)
        requires
            old(self).wf(),
            control.wf(),
        ensures
            final(self).wf(),
            (final(self)@, result_view(r)) == #[trigger] context_outcome(
                old(self)@,
                control@.sessions,
                display_id@,
                lease_token@,
                opt_str_view(session_id),
                now,
            ),
    {
        match validate_identifier(display_id, "display_id") {
            Ok(()) => {},
            Err(e) => {
                return Err(e);
            },
        }
        if let Some(sid) = session_id {
            match validate_identifier(sid, "session_id") {
                Ok(()) => {},
                Err(e) => {
                    return Err(e);
                },
            }
        }
        let i = match self.find_display(display_id) {
            Some(i) => i,
            None => {
                return Err(DisplaySessionError::RegistrationNotFound);
            },
        };
        assert(self@.records[i as int] == record_view(self.records@[i as int]));
        match validate_lease(&self.records[i], lease_token, now) {
            Ok(()) => {},
            Err(e) => {
                return Err(e);
            },
        }
        let sid: String = match session_id {
            Some(s) => s.to_owned(),
            None => match &self.records[i].session_id {
                Some(s) => s.clone(),
                None => {
                    return Err(DisplaySessionError::SessionNotAttached);
                },
            },
        };
        let snapshot = match control.snapshot(sid.as_str()) {
            Ok(s) => s,
            Err(_) => {
                return Err(DisplaySessionError::SessionNotFound);
            },
        };
        let ghost old_records = self.records@;
        let attached = match &self.records[i].session_id {
            Some(s) => string_eq(s, &sid),
            None => false,
        };
        if !attached {
            self.records[i].session_id = Some(sid);
        }
        proof {
            let r2 = DisplayRecordView { session_id: Some(snapshot@.session_id), ..old(self)@.records[i as int] };
            assert(record_view(self.records@[i as int]) == r2);
            assert(self@.records =~= old(self)@.records.update(i as int, r2));
        }
        Ok(context_response(&self.records[i], &snapshot))
    }

    pub fn context(&mut self, control: &ControlService, display_id: &str, lease_token: &str) -> (r:
        Result<DisplayContextResponse, DisplaySessionError>)
        requires
            old(self).wf(),
            control.wf(),
        ensures
            final(self).wf(),
            exists|now: u64|
                (final(self)@, result_view(r)) == #[trigger] context_outcome(
                    old(self)@,
                    control@.sessions,
                    display_id@,
                    lease_token@,
                    None,
                    now,
                ),
    {
        let now = now_ms();
        self.context_at(control, display_id, lease_token, None, now)
    }

    /// Reads the playback-owned context and, when a session is supplied,
    /// attaches this page instance to that existing session. The supplied id
    /// is only a lookup key; item and display generations always come from
    /// the playback snapshot.
    pub fn context_for_session(
        &mut self,
        control: &ControlService,
        display_id: &str,
        lease_token: &str,
        session_id: Option<&str>,
    ) -> (r: Result<DisplayContextResponse, DisplaySessionError>)
        requires
            old(self).wf(),
            control.wf(),
        ensures
            final(self).wf(),
            exists|now: u64|
                (final(self)@, result_view(r)) == #[trigger] context_outcome(
                    old(self)@,
                    control@.sessions,
                    display_id@,
                    lease_token@,
                    opt_str_view(session_id),
                    now,
                ),
    {
        let now = now_ms();
        self.context_at(control, display_id, lease_token, session_id, now)
    }

    /// Attaches a live page to the session whose active display it is.
    pub fn context_for_active_display(
        &mut self,
        control: &ControlService,
        display_id: &str,
        lease_token: &str,
    ) -> (r: Result<DisplayContextResponse, DisplaySessionError>)
        requires
            old(self).wf(),
            control.wf(),
        ensures
            final(self).wf(),
            !identifier_ok(display_id@) ==> r == Err::<DisplayContextResponse, DisplaySessionError>(
                DisplaySessionError::InvalidIdentifier("display_id"),
            ) && final(self)@ == old(self)@,
            identifier_ok(display_id@) && (forall|k: Seq<char>| #[trigger]
                control@.sessions.contains_key(k)
                    ==> control@.sessions[k].playback.active_display.display_id != display_id@)
                ==> r == Err::<DisplayContextResponse, DisplaySessionError>(
                DisplaySessionError::SessionNotFound,
            ) && final(self)@ == old(self)@,
            r is Ok ==> exists|now: u64, k: Seq<char>|
                control@.sessions.contains_key(k)
                    && control@.sessions[k].playback.active_display.display_id == display_id@
                    && (final(self)@, result_view(r)) == #[trigger] context_outcome(
                    old(self)@,
                    control@.sessions,
                    display_id@,
                    lease_token@,
                    Some(k),
                    now,
                ),
    {
        match validate_identifier(display_id, "display_id") {
            Ok(()) => {},
            Err(e) => {
                return Err(e);
            },
        }
        let snapshot = match control.snapshot_for_active_display(display_id) {
            Ok(s) => s,
            Err(_) => {
                return Err(DisplaySessionError::SessionNotFound);
            },
        };
        self.context_for_session(control, display_id, lease_token, Some(snapshot.session_id.as_str()))
    }
}

pub struct RegistrationInputView {
    pub session_id: Option<Seq<char>>,
    pub display_id: Seq<char>,
    pub label: Seq<char>,
    pub capabilities: Seq<Seq<char>>,
    pub previous_registration_id: Option<Seq<char>>,
    pub previous_lease_token: Option<Seq<char>>,
}

impl View for DisplayRegistration {
    type V = RegistrationInputView;

    open spec fn view(&self) -> RegistrationInputView {
        RegistrationInputView {
            session_id: opt_string_view(self.session_id),
            display_id: self.display_id@,
            label: self.label@,
            capabilities: strings_view(self.capabilities@),
            previous_registration_id: opt_string_view(self.previous_registration_id),
            previous_lease_token: opt_string_view(self.previous_lease_token),
        }
    }
}

pub struct RegistrationView {
    pub registration_id: Seq<char>,
    pub display_id: Seq<char>,
    pub lease_token: Seq<char>,
    pub page_lease_epoch: u64,
    pub lease_ttl_ms: u64,
    pub context: Option<ContextView>,
}

impl View for DisplayRegistrationResponse {
    type V = RegistrationView;

    open spec fn view(&self) -> RegistrationView {
        RegistrationView {
            registration_id: self.registration_id@,
            display_id: self.display_id@,
            lease_token: self.lease_token@,
            page_lease_epoch: self.page_lease_epoch,
            lease_ttl_ms: self.lease_ttl_ms,
            context: match self.context {
                Some(c) => Some(c@),
                None => None,
            },
        }
    }
}

/// The checks made on a registration before any state changes.
pub open spec fn registration_input_problem(
    sessions: Map<Seq<char>, crate::control::JournalView>,
    input: RegistrationInputView,
) -> Option<DisplaySessionError> {
    if input.session_id is Some && !identifier_ok(input.session_id->0) {
        Some(DisplaySessionError::InvalidIdentifier("session_id"))
    } else if input.session_id is Some && !sessions.contains_key(input.session_id->0) {
        Some(DisplaySessionError::SessionNotFound)
    } else if !identifier_ok(input.display_id) {
        Some(DisplaySessionError::InvalidIdentifier("display_id"))
    } else if !label_ok(input.label) {
        Some(DisplaySessionError::InvalidLabel)
    } else if !capabilities_ok(input.capabilities) {
        Some(DisplaySessionError::InvalidCapabilities)
    } else {
        None
    }
}

/// The answer to a registration once the registry holds `rec`.
pub open spec fn registration_answer(
    reg2: RegistryView,
    sessions: Map<Seq<char>, crate::control::JournalView>,
    rec: DisplayRecordView,
) -> (RegistryView, Result<RegistrationView, DisplaySessionError>) {
    let answer = RegistrationView {
        registration_id: rec.registration_id,
        display_id: rec.display_id,
        lease_token: rec.lease_token,
        page_lease_epoch: rec.page_lease_epoch,
        lease_ttl_ms: reg2.lease_ttl_ms,
        context: None,
    };
    match rec.session_id {
        None => (reg2, Ok(answer)),
        Some(sid) => if sessions.contains_key(sid) {
            (
                reg2,
                Ok(
                    RegistrationView {
                        context: Some(context_spec(rec, snapshot_of(sid, sessions[sid].playback))),
                        ..answer
                    },
                ),
            )
        } else {
            (reg2, Err(DisplaySessionError::SessionNotFound))
        },
    }
}

/// Registration: a reconnect that names the previous registration and its
/// live lease renews it with a new token and the next page epoch; a new
/// registration is refused while another page holds a live lease for the
/// display, and otherwise replaces any expired registration.
pub open spec fn register_outcome(
    reg: RegistryView,
    sessions: Map<Seq<char>, crate::control::JournalView>,
    input: RegistrationInputView,
    now: u64,
    registration_token: Seq<char>,
    lease_token: Seq<char>,
) -> (RegistryView, Result<RegistrationView, DisplaySessionError>) {
    match registration_input_problem(sessions, input) {
        Some(e) => (reg, Err(e)),
        None => match input.previous_registration_id {
            Some(prev) => match registration_index(reg.records, prev) {
                None => (reg, Err(DisplaySessionError::RegistrationNotFound)),
                Some(i) => {
                    let e = reg.records[i];
                    if input.previous_lease_token != Some(e.lease_token) {
                        (reg, Err(DisplaySessionError::LeaseInvalid))
                    } else if e.expires_at <= now {
                        (reg, Err(DisplaySessionError::LeaseExpired))
                    } else if (input.session_id is Some && e.session_id != input.session_id)
                        || e.display_id != input.display_id {
                        (reg, Err(DisplaySessionError::StaleContext))
                    } else {
                        let e2 = DisplayRecordView {
                            lease_token,
                            page_lease_epoch: (e.page_lease_epoch + 1) as u64,
                            expires_at: saturating_add(now, reg.lease_ttl_ms),
                            label: input.label,
                            capabilities: safe_capabilities_spec(input.capabilities),
                            session_id: if input.session_id is Some {
                                input.session_id
                            } else {
                                e.session_id
                            },
                            ..e
                        };
                        registration_answer(with_record(reg, i, e2), sessions, e2)
                    }
                },
            },
            None => {
                let existing = display_index(reg.records, input.display_id);
                if existing is Some && reg.records[existing->0].expires_at > now {
                    (reg, Err(DisplaySessionError::AlreadyRegistered))
                } else {
                    let base = if existing is Some {
                        reg.records.remove(existing->0)
                    } else {
                        reg.records
                    };
                    let rec = DisplayRecordView {
                        registration_id: registration_token,
                        display_id: input.display_id,
                        session_id: input.session_id,
                        lease_token,
                        page_lease_epoch: 1,
                        expires_at: saturating_add(now, reg.lease_ttl_ms),
                        label: input.label,
                        capabilities: safe_capabilities_spec(input.capabilities),
                        observation: None,
                    };
                    registration_answer(RegistryView { records: base.push(rec), ..reg }, sessions, rec)
                }
            },
        },
    }
}

proof fn lemma_remove_keeps_distinct(s: Seq<DisplayRecordView>, i: int)
    requires
        records_distinct(s),
        0 <= i < s.len(),
    ensures
        records_distinct(s.remove(i)),
        display_index(s.remove(i), s[i].display_id) is None,
{
    let t = s.remove(i);
    assert forall|a: int, b: int|
        0 <= a < t.len() && 0 <= b < t.len() && a != b implies #[trigger] t[a].display_id
        != #[trigger] t[b].display_id by {
        let a2 = if a < i { a } else { a + 1 };
        let b2 = if b < i { b } else { b + 1 };
        assert(t[a] == s[a2]);
        assert(t[b] == s[b2]);
    }
    if exists|k: int| 0 <= k < t.len() && #[trigger] t[k].display_id == s[i].display_id {
        let k = choose|k: int| 0 <= k < t.len() && #[trigger] t[k].display_id == s[i].display_id;
        let k2 = if k < i { k } else { k + 1 };
        assert(t[k] == s[k2]);
    }
}

proof fn lemma_push_keeps_distinct(s: Seq<DisplayRecordView>, r: DisplayRecordView)
    requires
        records_distinct(s),
        display_index(s, r.display_id) is None,
    ensures
        records_distinct(s.push(r)),
{
    let t = s.push(r);
    assert forall|a: int, b: int|
        0 <= a < t.len() && 0 <= b < t.len() && a != b implies #[trigger] t[a].display_id
        != #[trigger] t[b].display_id by {
        if a == s.len() {
            assert(t[b] == s[b]);
        } else if b == s.len() {
            assert(t[a] == s[a]);
        } else {
            assert(t[a] == s[a] && t[b] == s[b]);
        }
    }
}

impl DisplaySessionService {
    /// Every page epoch can advance once more.
    pub open spec fn can_renew(&self) -> bool {
        forall|i: int| 0 <= i < self@.records.len() ==> #[trigger] self@.records[i].page_lease_epoch < u64::MAX
    }

    fn registration_response(&self, control: &ControlService, i: usize) -> (r: Result<
        DisplayRegistrationResponse,
        DisplaySessionError,
    >)
        requires
            self.wf(),
            control.wf(),
            i < self@.records.len(),
        ensures
            (self@, result_view(r)) == registration_answer(self@, control@.sessions, self@.records[i as int]),
    {
        let record = &self.records[i];
        assert(self@.records[i as int] == record_view(self.records@[i as int]));
        let context = match &record.session_id {
            None => None,
            Some(sid) => match control.snapshot(sid.as_str()) {
                Ok(snapshot) => Some(context_response(record, &snapshot)),
                Err(_) => {
                    return Err(DisplaySessionError::SessionNotFound);
                },
            },
        };
        Ok(
            DisplayRegistrationResponse {
                registration_id: record.registration_id.clone(),
                display_id: record.display_id.clone(),
                lease_token: record.lease_token.clone(),
                page_lease_epoch: record.page_lease_epoch,
                lease_ttl_ms: self.lease_ttl_ms,
                context,
            },
        )
    }

    fn registration_input_check(control: &ControlService, input: &DisplayRegistration) -> (r: Option<
        DisplaySessionError,
    >)
        requires
            control.wf(),
        ensures
            r == registration_input_problem(control@.sessions, input@),
    {
        if let Some(sid) = &input.session_id {
            if let Err(e) = validate_identifier(sid.as_str(), "session_id") {
                return Some(e);
            }
            if control.snapshot(sid.as_str()).is_err() {
                return Some(DisplaySessionError::SessionNotFound);
            }
        }
        if let Err(e) = validate_identifier(input.display_id.as_str(), "display_id") {
            return Some(e);
        }
        if let Err(e) = validate_label(input.label.as_str()) {
            return Some(e);
        }
        if let Err(e) = validate_capabilities(&input.capabilities) {
            return Some(e);
        }
        None
    }

    fn register_reconnect(
        &mut self,
        control: &ControlService,
        input: DisplayRegistration,
        previous_id: &String,
        now: u64,
    ) -> (r: Result<DisplayRegistrationResponse, DisplaySessionError>)
        requires
            old(self).wf(),
            old(self).can_renew(),
            control.wf(),
            registration_input_problem(control@.sessions, input@) is None,
            input@.previous_registration_id == Some(previous_id@),
        ensures
            final(self).wf(),
            exists|lease_token: Seq<char>|
                is_opaque_token(lease_token) && (final(self)@, result_view(r))
                    == #[trigger] register_outcome(
                    old(self)@,
                    control@.sessions,
                    input@,
                    now,
                    witness_token(),
                    lease_token,
                ),
    {
        let ghost input_view = input@;
        proof {
            lemma_witness_token();
        }
        let expires_at = now.saturating_add(self.lease_ttl_ms);
        let i = match self.find_registration(previous_id.as_str()) {
            Some(i) => i,
            None => {
                assert(register_outcome(old(self)@, control@.sessions, input_view, now, witness_token(), witness_token()).1 == Err::<RegistrationView, DisplaySessionError>(DisplaySessionError::RegistrationNotFound));
                return Err(DisplaySessionError::RegistrationNotFound);
            },
        };
        assert(self@.records[i as int] == record_view(self.records@[i as int]));
        let token_matches = match &input.previous_lease_token {
            Some(t) => string_eq(t, &self.records[i].lease_token),
            None => false,
        };
        if !token_matches {
            assert(register_outcome(old(self)@, control@.sessions, input_view, now, witness_token(), witness_token()).1 == Err::<RegistrationView, DisplaySessionError>(DisplaySessionError::LeaseInvalid));
            return Err(DisplaySessionError::LeaseInvalid);
        }
        if self.records[i].expires_at <= now {
            assert(register_outcome(old(self)@, control@.sessions, input_view, now, witness_token(), witness_token()).1 == Err::<RegistrationView, DisplaySessionError>(DisplaySessionError::LeaseExpired));
            return Err(DisplaySessionError::LeaseExpired);
        }
        let session_conflict = match &input.session_id {
            Some(sid) => match &self.records[i].session_id {
                Some(existing) => !string_eq(existing, sid),
                None => true,
            },
            None => false,
        };
        if session_conflict || !string_eq(&self.records[i].display_id, &input.display_id) {
            assert(register_outcome(old(self)@, control@.sessions, input_view, now, witness_token(), witness_token()).1 == Err::<RegistrationView, DisplaySessionError>(DisplaySessionError::StaleContext));
            return Err(DisplaySessionError::StaleContext);
        }
        let lease_token = new_opaque_token();
        let ghost lt = lease_token@;
        let capabilities = safe_capabilities(&input.capabilities);
        let epoch = self.records[i].page_lease_epoch + 1;
        self.records[i].lease_token = lease_token;
        self.records[i].page_lease_epoch = epoch;
        self.records[i].expires_at = expires_at;
        self.records[i].label = input.label;
        self.records[i].capabilities = capabilities;
        if input.session_id.is_some() {
            self.records[i].session_id = input.session_id;
        }
        proof {
            let e = old(self)@.records[i as int];
            let e2 = DisplayRecordView {
                lease_token: lt,
                page_lease_epoch: (e.page_lease_epoch + 1) as u64,
                expires_at: saturating_add(now, old(self)@.lease_ttl_ms),
                label: input_view.label,
                capabilities: safe_capabilities_spec(input_view.capabilities),
                session_id: if input_view.session_id is Some {
                    input_view.session_id
                } else {
                    e.session_id
                },
                ..e
            };
            assert(record_view(self.records@[i as int]) == e2);
            assert(self@.records =~= old(self)@.records.update(i as int, e2));
        }
        let r = self.registration_response(control, i);
        assert((self@, result_view(r)) == register_outcome(
            old(self)@,
            control@.sessions,
            input_view,
            now,
            witness_token(),
            lt,
        ));
        r
    }

    fn register_new(&mut self, control: &ControlService, input: DisplayRegistration, now: u64) -> (r:
        Result<DisplayRegistrationResponse, DisplaySessionError>)
        requires
            old(self).wf(),
            control.wf(),
            registration_input_problem(control@.sessions, input@) is None,
            input@.previous_registration_id is None,
        ensures
            final(self).wf(),
            exists|registration_token: Seq<char>, lease_token: Seq<char>|
                is_opaque_token(registration_token) && is_opaque_token(lease_token) && (
                final(self)@,
                result_view(r),
            ) == #[trigger] register_outcome(
                old(self)@,
                control@.sessions,
                input@,
                now,
                registration_token,
                lease_token,
            ),
    {
        let ghost input_view = input@;
        proof {
            lemma_witness_token();
        }
        let expires_at = now.saturating_add(self.lease_ttl_ms);
        let existing = self.find_display(input.display_id.as_str());
        if let Some(e) = existing {
            assert(self@.records[e as int] == record_view(self.records@[e as int]));
            if self.records[e].expires_at > now {
                assert(register_outcome(old(self)@, control@.sessions, input_view, now, witness_token(), witness_token()).1 == Err::<RegistrationView, DisplaySessionError>(DisplaySessionError::AlreadyRegistered));
                return Err(DisplaySessionError::AlreadyRegistered);
            }
            proof {
                lemma_remove_keeps_distinct(self@.records, e as int);
            }
            self.records.remove(e);
            assert(self@.records =~= old(self)@.records.remove(e as int));
        }
        let registration_id = new_opaque_token();
        let lease_token = new_opaque_token();
        let ghost rt = registration_id@;
        let ghost lt = lease_token@;
        let record = DisplayRecord {
            registration_id,
            display_id: input.display_id,
            session_id: input.session_id,
            lease_token,
            page_lease_epoch: 1,
            expires_at,
            label: input.label,
            capabilities: safe_capabilities(&input.capabilities),
            observation: None,
        };
        proof {
            lemma_push_keeps_distinct(self@.records, record_view(record));
        }
        let ghost before = self@.records;
        self.records.push(record);
        assert(self@.records =~= before.push(record_view(record)));
        let last = self.records.len() - 1;
        let r = self.registration_response(control, last);
        assert((self@, result_view(r)) == register_outcome(
            old(self)@,
            control@.sessions,
            input_view,
            now,
            rt,
            lt,
        ));
        r
    }

    pub fn register_at(&mut self, control: &ControlService, input: DisplayRegistration, now: u64) -> (r:
        Result<DisplayRegistrationResponse, DisplaySessionError>)
        requires
            old(self).wf(),
            old(self).can_renew(),
            control.wf(),
        ensures
            final(self).wf(),
            exists|registration_token: Seq<char>, lease_token: Seq<char>|
                is_opaque_token(registration_token) && is_opaque_token(lease_token) && (
                final(self)@,
                result_view(r),
            ) == #[trigger] register_outcome(
                old(self)@,
                control@.sessions,
                input@,
                now,
                registration_token,
                lease_token,
            ),
    {
        proof {
            lemma_witness_token();
        }
        match Self::registration_input_check(control, &input) {
            Some(e) => {
                assert(register_outcome(old(self)@, control@.sessions, input@, now, witness_token(), witness_token()).1 == Err::<RegistrationView, DisplaySessionError>(e));
                return Err(e);
            },
            None => {},
        }
        match &input.previous_registration_id {
            Some(previous_id) => {
                let previous_id = previous_id.clone();
                self.register_reconnect(control, input, &previous_id, now)
            },
            None => self.register_new(control, input, now),
        }
    }

    pub fn register(&mut self, control: &ControlService, input: DisplayRegistration) -> (r: Result<
        DisplayRegistrationResponse,
        DisplaySessionError,
    >)
        requires
            old(self).wf(),
            old(self).can_renew(),
            control.wf(),
        ensures
            final(self).wf(),
            exists|now: u64, registration_token: Seq<char>, lease_token: Seq<char>|
                is_opaque_token(registration_token) && is_opaque_token(lease_token) && (
                final(self)@,
                result_view(r),
            ) == #[trigger] register_outcome(
                old(self)@,
                control@.sessions,
                input@,
                now,
                registration_token,
                lease_token,
            ),
    {
        let now = now_ms();
        self.register_at(control, input, now)
    }
}

pub open spec fn witness_token() -> Seq<char> {
    Seq::new(32, |i: int| 'a')
}

proof fn lemma_witness_token()
    ensures
        is_opaque_token(witness_token()),
{
}

pub struct CallbackInputView {
    pub lease_token: Seq<char>,
    pub session_id: Seq<char>,
    pub item_id: Seq<char>,
    pub item_revision: u64,
    pub session_revision: u64,
    pub display_id: Seq<char>,
    pub display_generation: u64,
    pub telemetry_sequence: Option<u64>,
    pub position_ms: Option<u64>,
    pub observation: Option<WebDisplayObservation>,
    pub error_code: Option<WebDisplayErrorCode>,
}

impl View for DisplayCallback {
    type V = CallbackInputView;

    open spec fn view(&self) -> CallbackInputView {
        CallbackInputView {
            lease_token: self.lease_token@,
            session_id: self.session_id@,
            item_id: self.item_id@,
            item_revision: self.item_revision,
            session_revision: self.session_revision,
            display_id: self.display_id@,
            display_generation: self.display_generation,
            telemetry_sequence: self.telemetry_sequence,
            position_ms: self.position_ms,
            observation: self.observation,
            error_code: self.error_code,
        }
    }
}

pub struct CallbackView {
    pub accepted: bool,
    pub candidate_observation: bool,
    pub telemetry_accepted: bool,
    pub session_revision: u64,
    pub telemetry_sequence: u64,
    pub context: ContextView,
}

impl View for DisplayCallbackResponse {
    type V = CallbackView;

    open spec fn view(&self) -> CallbackView {
        CallbackView {
            accepted: self.accepted,
            candidate_observation: self.candidate_observation,
            telemetry_accepted: self.telemetry_accepted,
            session_revision: self.session_revision,
            telemetry_sequence: self.telemetry_sequence,
            context: self.context@,
        }
    }
}

/// A callback is current when it comes from the active display at its
/// generation.
pub open spec fn callback_is_current(p: crate::playback::PlaybackView, cb: CallbackInputView) -> bool {
    p.active_display.display_id == cb.display_id && p.active_display.generation
        == cb.display_generation
}

/// A callback is a candidate observation when it comes from the handoff
/// target at its candidate generation.
pub open spec fn callback_is_candidate(p: crate::playback::PlaybackView, cb: CallbackInputView) -> bool {
    p.handoff is Some && p.handoff->0.ticket.target_display_id == cb.display_id
        && p.handoff->0.ticket.candidate_generation == cb.display_generation
}

/// The checks made on a callback before any side effect.
pub open spec fn callback_problem(
    reg: RegistryView,
    sessions: Map<Seq<char>, crate::control::JournalView>,
    cb: CallbackInputView,
    now: u64,
) -> Option<DisplaySessionError> {
    if !identifier_ok(cb.session_id) {
        Some(DisplaySessionError::InvalidIdentifier("session_id"))
    } else if !identifier_ok(cb.display_id) {
        Some(DisplaySessionError::InvalidIdentifier("display_id"))
    } else if (cb.position_ms is Some) != (cb.telemetry_sequence is Some) {
        Some(DisplaySessionError::InvalidCallback)
    } else if cb.observation is None && cb.error_code is None && cb.position_ms is None {
        Some(DisplaySessionError::InvalidCallback)
    } else {
        match display_index(reg.records, cb.display_id) {
            None => Some(DisplaySessionError::RegistrationNotFound),
            Some(i) => {
                let r = reg.records[i];
                if lease_problem(r, cb.lease_token, now) is Some {
                    lease_problem(r, cb.lease_token, now)
                } else if r.session_id != Some(cb.session_id) || r.display_id != cb.display_id {
                    Some(DisplaySessionError::StaleContext)
                } else if !sessions.contains_key(cb.session_id) {
                    Some(DisplaySessionError::SessionNotFound)
                } else {
                    let p = sessions[cb.session_id].playback;
                    if p.item.item_id != cb.item_id || p.item.item_revision != cb.item_revision {
                        Some(DisplaySessionError::StaleContext)
                    } else if !callback_is_current(p, cb) && !callback_is_candidate(p, cb) {
                        Some(DisplaySessionError::StaleContext)
                    } else {
                        None
                    }
                }
            },
        }
    }
}

/// What a callback does: a position report goes to the playback authority
/// (as the active display's or as the candidate's observation), a refused
/// report is stale telemetry, and the page's latest observation is kept.
pub open spec fn callback_outcome(
    reg: RegistryView,
    sessions: Map<Seq<char>, crate::control::JournalView>,
    limit: nat,
    cb: CallbackInputView,
    now: u64,
) -> (RegistryView, Map<Seq<char>, crate::control::JournalView>, Result<
    CallbackView,
    DisplaySessionError,
>) {
    match callback_problem(reg, sessions, cb, now) {
        Some(e) => (reg, sessions, Err(e)),
        None => {
            let i = display_index(reg.records, cb.display_id)->0;
            let r = reg.records[i];
            let j = sessions[cb.session_id];
            let p = j.playback;
            let is_current = callback_is_current(p, cb);
            let has_telemetry = cb.telemetry_sequence is Some && cb.position_ms is Some;
            let seq = cb.telemetry_sequence->0;
            let pos = cb.position_ms->0;
            let heard = if is_current {
                position_accepted(p, cb.item_id, cb.item_revision, seq)
            } else {
                candidate_accepted(p, cb.display_id, cb.display_generation, cb.item_id, cb.item_revision, seq)
            };
            if has_telemetry && !heard {
                (reg, sessions, Err(DisplaySessionError::StaleTelemetry))
            } else {
                let sessions2 = if !has_telemetry {
                    sessions
                } else if is_current {
                    sessions.insert(cb.session_id, after_display_telemetry(j, cb.session_id, pos, seq, limit))
                } else {
                    sessions.insert(cb.session_id, after_candidate_telemetry(j, cb.session_id, pos, seq, limit))
                };
                let r2 = DisplayRecordView {
                    observation: Some(
                        ObservationView {
                            context: DisplayContextView {
                                session_id: cb.session_id,
                                item_id: cb.item_id,
                                item_revision: cb.item_revision,
                                display_id: cb.display_id,
                                display_generation: cb.display_generation,
                            },
                            observation: match cb.observation {
                                Some(o) => o,
                                None => WebDisplayObservation::Unknown,
                            },
                            position_ms: match cb.position_ms {
                                Some(x) => x,
                                None => p.position_ms,
                            },
                            error: cb.error_code,
                        },
                    ),
                    ..r
                };
                let current = snapshot_of(cb.session_id, sessions2[cb.session_id].playback);
                (
                    with_record(reg, i, r2),
                    sessions2,
                    Ok(
                        CallbackView {
                            accepted: true,
                            candidate_observation: callback_is_candidate(p, cb),
                            telemetry_accepted: has_telemetry,
                            session_revision: current.session_revision,
                            telemetry_sequence: current.telemetry_sequence,
                            context: context_spec(r2, current),
                        },
                    ),
                )
            }
        },
    }
}

impl DisplaySessionService {
    fn callback_check(&self, control: &ControlService, callback: &DisplayCallback, now: u64) -> (r:
        Result<usize, DisplaySessionError>)
        requires
            self.wf(),
            control.wf(),
        ensures
            r is Err ==> callback_problem(self@, control@.sessions, callback@, now) == Some(r->Err_0),
            r is Ok ==> callback_problem(self@, control@.sessions, callback@, now) is None
                && display_index(self@.records, callback@.display_id) == Some(r->Ok_0 as int),
    {
        if let Err(e) = validate_identifier(callback.session_id.as_str(), "session_id") {
            return Err(e);
        }
        if let Err(e) = validate_identifier(callback.display_id.as_str(), "display_id") {
            return Err(e);
        }
        if callback.position_ms.is_some() != callback.telemetry_sequence.is_some() {
            return Err(DisplaySessionError::InvalidCallback);
        }
        if callback.observation.is_none() && callback.error_code.is_none()
            && callback.position_ms.is_none() {
            return Err(DisplaySessionError::InvalidCallback);
        }
        let i = match self.find_display(callback.display_id.as_str()) {
            Some(i) => i,
            None => {
                return Err(DisplaySessionError::RegistrationNotFound);
            },
        };
        assert(self@.records[i as int] == record_view(self.records@[i as int]));
        let record = &self.records[i];
        if let Err(e) = validate_lease(record, callback.lease_token.as_str(), now) {
            return Err(e);
        }
        let attached = match &record.session_id {
            Some(s) => string_eq(s, &callback.session_id),
            None => false,
        };
        if !attached || !string_eq(&record.display_id, &callback.display_id) {
            return Err(DisplaySessionError::StaleContext);
        }
        let snapshot = match control.snapshot(callback.session_id.as_str()) {
            Ok(s) => s,
            Err(_) => {
                return Err(DisplaySessionError::SessionNotFound);
            },
        };
        if !string_eq(&snapshot.current_item.item_id, &callback.item_id)
            || snapshot.current_item.item_revision != callback.item_revision {
            return Err(DisplaySessionError::StaleContext);
        }
        let is_current = string_eq(&snapshot.active_display.display_id, &callback.display_id)
            && snapshot.active_display.generation == callback.display_generation;
        let is_candidate = match &snapshot.handoff {
            Some(h) => string_eq(&h.target_display_id, &callback.display_id)
                && h.candidate_generation == callback.display_generation,
            None => false,
        };
        if !is_current && !is_candidate {
            return Err(DisplaySessionError::StaleContext);
        }
        Ok(i)
    }

    pub fn callback_at(&mut self, control: &mut ControlService, callback: DisplayCallback, now: u64) -> (r:
        Result<DisplayCallbackResponse, DisplaySessionError>)
        requires
            old(self).wf(),
            old(control).wf(),
            old(control).can_advance_session(callback@.session_id),
        ensures
            final(self).wf(),
            final(control).wf(),
            final(control)@.event_limit == old(control)@.event_limit,
            final(control).session_sequence() == old(control).session_sequence(),
            (final(self)@, final(control)@.sessions, result_view(r)) == callback_outcome(
                old(self)@,
                old(control)@.sessions,
                old(control)@.event_limit as nat,
                callback@,
                now,
            ),
    {
        let i = match self.callback_check(control, &callback, now) {
            Ok(i) => i,
            Err(e) => {
                return Err(e);
            },
        };
        let ghost cb = callback@;
        let snapshot = match control.snapshot(callback.session_id.as_str()) {
            Ok(s) => s,
            Err(_) => {
                return Err(DisplaySessionError::SessionNotFound);
            },
        };
        let is_current = string_eq(&snapshot.active_display.display_id, &callback.display_id)
            && snapshot.active_display.generation == callback.display_generation;
        let is_candidate = match &snapshot.handoff {
            Some(h) => string_eq(&h.target_display_id, &callback.display_id)
                && h.candidate_generation == callback.display_generation,
            None => false,
        };
        let telemetry_accepted = match (callback.telemetry_sequence, callback.position_ms) {
            (Some(sequence), Some(position_ms)) => {
                let telemetry = DisplayPositionTelemetry {
                    display_id: callback.display_id.as_str(),
                    display_generation: callback.display_generation,
                    item_id: callback.item_id.as_str(),
                    item_revision: callback.item_revision,
                    telemetry_sequence: sequence,
                    position_ms,
                };
                let heard = if is_current {
                    control.apply_display_position_telemetry(callback.session_id.as_str(), telemetry)
                } else {
                    control.apply_candidate_position_telemetry(
                        callback.session_id.as_str(),
                        telemetry,
                    )
                };
                match heard {
                    Ok(true) => {},
                    _ => {
                        return Err(DisplaySessionError::StaleTelemetry);
                    },
                }
                true
            },
            _ => false,
        };
        let observation = match callback.observation {
            Some(o) => o,
            None => WebDisplayObservation::Unknown,
        };
        let position_ms = match callback.position_ms {
            Some(p) => p,
            None => snapshot.position_ms,
        };
        let context = DisplayContext::new(
            callback.session_id.clone(),
            callback.item_id.clone(),
            callback.item_revision,
            callback.display_id.clone(),
            callback.display_generation,
        );
        let ghost old_records = self.records@;
        self.records[i].observation = Some(
            DisplayObservationRecord { context, observation, position_ms, error: callback.error_code },
        );
        let current = match control.snapshot(callback.session_id.as_str()) {
            Ok(s) => s,
            Err(_) => {
                return Err(DisplaySessionError::SessionNotFound);
            },
        };
        proof {
            let r = old(self)@.records[i as int];
            assert(record_view(old_records[i as int]) == r);
            let r2 = DisplayRecordView {
                observation: Some(
                    ObservationView {
                        context: DisplayContextView {
                            session_id: cb.session_id,
                            item_id: cb.item_id,
                            item_revision: cb.item_revision,
                            display_id: cb.display_id,
                            display_generation: cb.display_generation,
                        },
                        observation: observation,
                        position_ms: position_ms,
                        error: cb.error_code,
                    },
                ),
                ..r
            };
            assert(record_view(self.records@[i as int]) == r2);
            assert(self@.records =~= old(self)@.records.update(i as int, r2));
        }
        Ok(
            DisplayCallbackResponse {
                accepted: true,
                candidate_observation: is_candidate,
                telemetry_accepted,
                session_revision: current.session_revision,
                telemetry_sequence: current.telemetry_sequence,
                context: context_response(&self.records[i], &current),
            },
        )
    }

    pub fn callback(&mut self, control: &mut ControlService, callback: DisplayCallback) -> (r: Result<
        DisplayCallbackResponse,
        DisplaySessionError,
    >)
        requires
            old(self).wf(),
            old(control).wf(),
            old(control).can_advance_session(callback@.session_id),
        ensures
            final(self).wf(),
            final(control).wf(),
            final(control)@.event_limit == old(control)@.event_limit,
            final(control).session_sequence() == old(control).session_sequence(),
            exists|now: u64|
                (final(self)@, final(control)@.sessions, result_view(r)) == #[trigger] callback_outcome(
                    old(self)@,
                    old(control)@.sessions,
                    old(control)@.event_limit as nat,
                    callback@,
                    now,
                ),
    {
        let now = now_ms();
        self.callback_at(control, callback, now)
    }
}

pub struct ViewInputView {
    pub instance: Option<crate::display_adapter::DisplayInstanceView>,
    pub status: Option<crate::display_adapter::DisplayStatusView>,
    pub error: Option<DisplayAdapterErrorKind>,
}

impl View for DisplayViewInput {
    type V = ViewInputView;

    open spec fn view(&self) -> ViewInputView {
        ViewInputView {
            instance: match self.instance {
                Some(i) => Some(i@),
                None => None,
            },
            status: match self.status {
                Some(s) => Some(s@),
                None => None,
            },
            error: match self.error {
                Some(e) => Some(adapter_error_view(e)),
                None => None,
            },
        }
    }
}

/// The safe generic facts a display contributes to the control projection:
/// instance, status and error are only reported while the display is the
/// session's active display.
pub open spec fn view_input_outcome(
    reg: RegistryView,
    sessions: Map<Seq<char>, crate::control::JournalView>,
    display_id: Seq<char>,
    now: u64,
) -> Result<ViewInputView, DisplaySessionError> {
    if !identifier_ok(display_id) {
        Err(DisplaySessionError::InvalidIdentifier("display_id"))
    } else {
        match display_index(reg.records, display_id) {
            None => Err(DisplaySessionError::RegistrationNotFound),
            Some(i) => {
                let r = reg.records[i];
                match r.session_id {
                    None => Err(DisplaySessionError::SessionNotAttached),
                    Some(sid) => if !sessions.contains_key(sid) {
                        Err(DisplaySessionError::SessionNotFound)
                    } else {
                        let active = sessions[sid].playback.active_display.display_id == r.display_id;
                        Ok(
                            ViewInputView {
                                instance: if active {
                                    Some(
                                        crate::display_adapter::DisplayInstanceView {
                                            id: r.display_id,
                                            adapter_type: "web"@,
                                            label: r.label,
                                            online: r.expires_at > now,
                                            capabilities: r.capabilities,
                                        },
                                    )
                                } else {
                                    None
                                },
                                status: if active && r.observation is Some {
                                    let o = r.observation->0;
                                    Some(
                                        crate::display_adapter::DisplayStatusView {
                                            context: o.context,
                                            observation: observation_of(o.observation),
                                            position: PositionSample {
                                                requested_ms: None,
                                                reported_ms: o.position_ms,
                                                error_ms: None,
                                            },
                                        },
                                    )
                                } else {
                                    None
                                },
                                error: if active && r.observation is Some
                                    && r.observation->0.error is Some {
                                    Some(adapter_error_of(r.observation->0.error->0))
                                } else {
                                    None
                                },
                            },
                        )
                    },
                }
            },
        }
    }
}

impl DisplaySessionService {
    pub fn display_view_input_at(&self, control: &ControlService, display_id: &str, now: u64) -> (r:
        Result<DisplayViewInput, DisplaySessionError>)
        requires
            self.wf(),
            control.wf(),
        ensures
            result_view(r) == view_input_outcome(self@, control@.sessions, display_id@, now),
    {
        if let Err(e) = validate_identifier(display_id, "display_id") {
            return Err(e);
        }
        let i = match self.find_display(display_id) {
            Some(i) => i,
            None => {
                return Err(DisplaySessionError::RegistrationNotFound);
            },
        };
        assert(self@.records[i as int] == record_view(self.records@[i as int]));
        let record = &self.records[i];
        let session_id = match &record.session_id {
            Some(s) => s,
            None => {
                return Err(DisplaySessionError::SessionNotAttached);
            },
        };
        let snapshot = match control.snapshot(session_id.as_str()) {
            Ok(s) => s,
            Err(_) => {
                return Err(DisplaySessionError::SessionNotFound);
            },
        };
        let active = string_eq(&snapshot.active_display.display_id, &record.display_id);
        let instance = if active {
            Some(
                DisplayInstance {
                    id: record.display_id.clone(),
                    adapter_type: "web".to_owned(),
                    label: record.label.clone(),
                    online: record.expires_at > now,
                    capabilities: clone_strings(&record.capabilities),
                },
            )
        } else {
            None
        };
        let (status, error) = match &record.observation {
            Some(observation) => {
                if active {
                    (
                        Some(
                            DisplayStatus {
                                context: observation.context.clone_context(),
                                observation: observation.observation.playback_observation(),
                                position: PositionSample {
                                    requested_ms: None,
                                    reported_ms: observation.position_ms,
                                    error_ms: None,
                                },
                            },
                        ),
                        match observation.error {
                            Some(e) => Some(e.adapter_error()),
                            None => None,
                        },
                    )
                } else {
                    (None, None)
                }
            },
            None => (None, None),
        };
        proof {
            reveal_strlit("web");
        }
        Ok(DisplayViewInput { instance, status, error })
    }

    /// Safe generic facts for the control projection, at the current time.
    pub fn display_view_input(&self, control: &ControlService, display_id: &str) -> (r: Result<
        DisplayViewInput,
        DisplaySessionError,
    >)
        requires
            self.wf(),
            control.wf(),
        ensures
            exists|now: u64|
                result_view(r) == #[trigger] view_input_outcome(
                    self@,
                    control@.sessions,
                    display_id@,
                    now,
                ),
    {
        let now = now_ms();
        self.display_view_input_at(control, display_id, now)
    }

    /// Validates only the server-owned registration and liveness facts of a
    /// display selector; no lease, epoch, attachment or generation is read.
    pub fn validate_live_selector_at(&self, display_id: &str, now: u64) -> (r: Result<
        (),
        DisplaySessionError,
    >)
        requires
            self.wf(),
        ensures
            r == (if !identifier_ok(display_id@) {
                Err(DisplaySessionError::InvalidIdentifier("display_id"))
            } else {
                match display_index(self@.records, display_id@) {
                    None => Err(DisplaySessionError::RegistrationNotFound),
                    Some(i) => if self@.records[i].expires_at <= now {
                        Err(DisplaySessionError::LeaseExpired)
                    } else {
                        Ok(())
                    },
                }
            }),
    {
        if let Err(e) = validate_identifier(display_id, "display_id") {
            return Err(e);
        }
        let i = match self.find_display(display_id) {
            Some(i) => i,
            None => {
                return Err(DisplaySessionError::RegistrationNotFound);
            },
        };
        assert(self@.records[i as int] == record_view(self.records@[i as int]));
        if self.records[i].expires_at <= now {
            return Err(DisplaySessionError::LeaseExpired);
        }
        Ok(())
    }

    pub fn validate_live_selector(&self, display_id: &str) -> (r: Result<(), DisplaySessionError>)
        requires
            self.wf(),
        ensures
            !identifier_ok(display_id@) ==> r == Err::<(), DisplaySessionError>(
                DisplaySessionError::InvalidIdentifier("display_id"),
            ),
            identifier_ok(display_id@) && display_index(self@.records, display_id@) is None ==> r
                == Err::<(), DisplaySessionError>(DisplaySessionError::RegistrationNotFound),
            r is Ok ==> identifier_ok(display_id@) && display_index(self@.records, display_id@) is Some,
            r is Err ==> r == Err::<(), DisplaySessionError>(DisplaySessionError::InvalidIdentifier("display_id"))
                || r == Err::<(), DisplaySessionError>(DisplaySessionError::RegistrationNotFound)
                || r == Err::<(), DisplaySessionError>(DisplaySessionError::LeaseExpired),
    {
        let now = now_ms();
        self.validate_live_selector_at(display_id, now)
    }
}

// ---------------------------------------------------------------------------
// Live display listing
// ---------------------------------------------------------------------------

pub struct LiveView {
    pub display_id: Seq<char>,
    pub label: Seq<char>,
    pub capabilities: Seq<Seq<char>>,
    pub online: bool,
}

impl View for LiveDisplayView {
    type V = LiveView;

    open spec fn view(&self) -> LiveView {
        LiveView {
            display_id: self.display_id@,
            label: self.label@,
            capabilities: strings_view(self.capabilities@),
            online: self.online,
        }
    }
}

pub open spec fn live_view_of(r: DisplayRecordView) -> LiveView {
    LiveView { display_id: r.display_id, label: r.label, capabilities: r.capabilities, online: true }
}

/// `v` lists record `r`.
pub open spec fn lists(v: LiveView, r: DisplayRecordView) -> bool {
    v == live_view_of(r)
}

pub open spec fn live_views(s: Seq<LiveDisplayView>) -> Seq<LiveView> {
    s.map_values(|v: LiveDisplayView| v@)
}

pub open spec fn sorted_by_display(out: Seq<LiveView>) -> bool {
    forall|i: int, j: int|
        0 <= i < j < out.len() ==> lex_lt(#[trigger] out[i].display_id, #[trigger] out[j].display_id)
}

/// The live listing at `now`: every record whose lease has not expired,
/// once, as selector metadata only (no lease, epoch or generation), sorted
/// by display id.
pub open spec fn live_listing(records: Seq<DisplayRecordView>, now: u64, out: Seq<LiveView>) -> bool {
    &&& sorted_by_display(out)
    &&& listed_prefix(records, now, records.len() as int, out)
}

/// Inserts `view` into a listing sorted by display id, whose ids all differ
/// from its own; gives the position it took.
fn insert_sorted(out: &mut Vec<LiveDisplayView>, view: LiveDisplayView) -> (p: usize)
    requires
        sorted_by_display(live_views(old(out)@)),
        forall|i: int|
            0 <= i < old(out)@.len() ==> (#[trigger] live_views(old(out)@)[i]).display_id
                != view@.display_id,
    ensures
        p <= old(out)@.len(),
        live_views(final(out)@) == live_views(old(out)@).insert(p as int, view@),
        sorted_by_display(live_views(final(out)@)),
{
    let ghost before = live_views(out@);
    let ghost v = view@;
    let mut p: usize = 0;
    while p < out.len() && !lex_less(view.display_id.as_str(), out[p].display_id.as_str())
        invariant
            p <= out@.len(),
            before == live_views(out@),
            v == view@,
            forall|q: int| 0 <= q < p ==> lex_lt(#[trigger] before[q].display_id, v.display_id),
            forall|i: int| 0 <= i < before.len() ==> (#[trigger] before[i]).display_id != v.display_id,
        decreases out@.len() - p,
    {
        assert(before[p as int] == out@[p as int]@);
        proof {
            lemma_lex_total(before[p as int].display_id, v.display_id);
        }
        p = p + 1;
    }
    if p < out.len() {
        assert(before[p as int] == out@[p as int]@);
    }
    out.insert(p, view);
    assert(live_views(out@) =~= before.insert(p as int, v));
    proof {
        let after = live_views(out@);
        assert forall|i: int, j: int| 0 <= i < j < after.len() implies lex_lt(
            #[trigger] after[i].display_id,
            #[trigger] after[j].display_id,
        ) by {
            if j < p {
                assert(after[i] == before[i] && after[j] == before[j]);
            } else if j == p {
                assert(after[i] == before[i]);
            } else if i == p {
                assert(after[j] == before[j - 1]);
                if j - 1 > p {
                    assert(lex_lt(before[p as int].display_id, before[j - 1].display_id));
                    lemma_lex_transitive(v.display_id, before[p as int].display_id, before[j - 1].display_id);
                }
            } else if i < p {
                assert(after[i] == before[i] && after[j] == before[j - 1]);
                assert(lex_lt(before[i].display_id, v.display_id));
                lemma_lex_transitive(before[i].display_id, v.display_id, before[p as int].display_id);
                if j - 1 > p {
                    lemma_lex_transitive(before[i].display_id, before[p as int].display_id, before[j - 1].display_id);
                }
            } else {
                assert(after[i] == before[i - 1] && after[j] == before[j - 1]);
            }
        }
    }
    p
}

/// The lease of record `r` is live at `now`.
pub open spec fn is_live(r: DisplayRecordView, now: u64) -> bool {
    r.expires_at > now
}

/// `v` lists a live record among the first `k`.
pub open spec fn has_source(recs: Seq<DisplayRecordView>, now: u64, k: int, v: LiveView) -> bool {
    exists|m: int| 0 <= m < k && is_live(recs[m], now) && #[trigger] lists(v, recs[m])
}

/// Every entry of `out` lists a live record among the first `k`.
pub open spec fn listed_sound(recs: Seq<DisplayRecordView>, now: u64, k: int, out: Seq<LiveView>) -> bool {
    forall|i: int| 0 <= i < out.len() ==> #[trigger] has_source(recs, now, k, out[i])
}

/// Every live record among the first `k` is listed in `out`.
pub open spec fn listed_complete(recs: Seq<DisplayRecordView>, now: u64, k: int, out: Seq<LiveView>) -> bool {
    forall|m: int|
        #![trigger recs[m]]
        0 <= m < k && is_live(recs[m], now) ==> exists|i: int|
            0 <= i < out.len() && #[trigger] lists(out[i], recs[m])
}

/// `out` lists exactly the live records among the first `k`.
pub open spec fn listed_prefix(recs: Seq<DisplayRecordView>, now: u64, k: int, out: Seq<LiveView>) -> bool {
    listed_sound(recs, now, k, out) && listed_complete(recs, now, k, out)
}

proof fn lemma_listed_skip(recs: Seq<DisplayRecordView>, now: u64, k: int, out: Seq<LiveView>)
    requires
        0 <= k < recs.len(),
        !is_live(recs[k], now),
        listed_prefix(recs, now, k, out),
    ensures
        listed_prefix(recs, now, k + 1, out),
{
    assert forall|i: int| 0 <= i < out.len() implies #[trigger] has_source(recs, now, k + 1, out[i]) by {
        assert(has_source(recs, now, k, out[i]));
        let m = choose|m: int| 0 <= m < k && is_live(recs[m], now) && #[trigger] lists(out[i], recs[m]);
        assert(lists(out[i], recs[m]));
    }
    assert forall|m: int| #![trigger recs[m]] 0 <= m < k + 1 && is_live(recs[m], now) implies exists|i: int|
        0 <= i < out.len() && #[trigger] lists(out[i], recs[m]) by {
        assert(m != k);
    }
}

proof fn lemma_listed_distinct(recs: Seq<DisplayRecordView>, now: u64, k: int, out: Seq<LiveView>)
    requires
        0 <= k < recs.len(),
        records_distinct(recs),
        listed_sound(recs, now, k, out),
    ensures
        forall|i: int| 0 <= i < out.len() ==> (#[trigger] out[i]).display_id != recs[k].display_id,
{
    assert forall|i: int| 0 <= i < out.len() implies (#[trigger] out[i]).display_id
        != recs[k].display_id by {
        assert(has_source(recs, now, k, out[i]));
        let m = choose|m: int| 0 <= m < k && is_live(recs[m], now) && #[trigger] lists(out[i], recs[m]);
        assert(recs[m].display_id != recs[k].display_id);
    }
}

proof fn lemma_listed_insert(
    recs: Seq<DisplayRecordView>,
    now: u64,
    k: int,
    before: Seq<LiveView>,
    p: int,
)
    requires
        0 <= k < recs.len(),
        is_live(recs[k], now),
        0 <= p <= before.len(),
        listed_prefix(recs, now, k, before),
    ensures
        listed_prefix(recs, now, k + 1, before.insert(p, live_view_of(recs[k]))),
{
    let x = live_view_of(recs[k]);
    let after = before.insert(p, x);
    assert(after.len() == before.len() + 1);
    assert(forall|i: int| 0 <= i < p ==> after[i] == before[i]);
    assert(after[p] == x);
    assert(forall|i: int| p < i < after.len() ==> after[i] == before[i - 1]);
    assert forall|i: int| 0 <= i < after.len() implies #[trigger] has_source(recs, now, k + 1, after[i]) by {
        if i < p {
            assert(has_source(recs, now, k, before[i]));
            let m = choose|m: int| 0 <= m < k && is_live(recs[m], now) && #[trigger] lists(before[i], recs[m]);
            assert(lists(after[i], recs[m]));
        } else if i == p {
            assert(lists(after[i], recs[k]));
        } else {
            assert(has_source(recs, now, k, before[i - 1]));
            let m = choose|m: int|
                0 <= m < k && is_live(recs[m], now) && #[trigger] lists(before[i - 1], recs[m]);
            assert(lists(after[i], recs[m]));
        }
    }
    assert forall|m: int| #![trigger recs[m]] 0 <= m < k + 1 && is_live(recs[m], now) implies exists|i: int|
        0 <= i < after.len() && #[trigger] lists(after[i], recs[m]) by {
        if m == k {
            assert(lists(after[p], recs[m]));
        } else {
            let i = choose|i: int| 0 <= i < before.len() && #[trigger] lists(before[i], recs[m]);
            if i < p {
                assert(lists(after[i], recs[m]));
            } else {
                assert(lists(after[i + 1], recs[m]));
            }
        }
    }
}

impl DisplaySessionService {
    /// Selector metadata of the displays whose lease is live at `now`.
    pub fn live_displays_at(&self, now: u64) -> (r: Vec<LiveDisplayView>)
        requires
            self.wf(),
        ensures
            live_listing(self@.records, now, live_views(r@)),
    {
        let ghost recs = self@.records;
        let mut out: Vec<LiveDisplayView> = Vec::new();
        let mut k: usize = 0;
        assert(live_views(out@) =~= Seq::<LiveView>::empty());
        while k < self.records.len()
            invariant
                recs == self@.records,
                records_distinct(recs),
                k <= recs.len(),
                sorted_by_display(live_views(out@)),
                listed_prefix(recs, now, k as int, live_views(out@)),
            decreases recs.len() - k,
        {
            let record = &self.records[k];
            assert(recs[k as int] == record_view(self.records@[k as int]));
            if record.expires_at > now {
                let view = LiveDisplayView {
                    display_id: record.display_id.clone(),
                    label: record.label.clone(),
                    capabilities: clone_strings(&record.capabilities),
                    online: true,
                };
                assert(view@ == live_view_of(recs[k as int]));
                let ghost before = live_views(out@);
                proof {
                    lemma_listed_distinct(recs, now, k as int, before);
                }
                let p = insert_sorted(&mut out, view);
                proof {
                    lemma_listed_insert(recs, now, k as int, before, p as int);
                }
            } else {
                proof {
                    assert(!is_live(recs[k as int], now));
                    lemma_listed_skip(recs, now, k as int, live_views(out@));
                }
            }
            k = k + 1;
        }
        out
    }

    /// Selector metadata of the displays whose lease is live now.
    pub fn live_displays(&self) -> (r: Vec<LiveDisplayView>)
        requires
            self.wf(),
        ensures
            exists|now: u64| #[trigger] live_listing(self@.records, now, live_views(r@)),
    {
        let now = now_ms();
        self.live_displays_at(now)
    }
}

} // verus!

verus! {

impl Default for DisplaySessionService {
    fn default() -> (s: Self)
        ensures
            s.wf(),
            s@.records == Seq::<DisplayRecordView>::empty(),
            s@.lease_ttl_ms == DEFAULT_WEB_DISPLAY_LEASE_TTL_MS,
    {
        DisplaySessionService::new(DEFAULT_WEB_DISPLAY_LEASE_TTL_MS)
    }
}

} // verus!

verus! {

impl DisplaySessionService {
    /// Whether every page epoch can advance once more.
    pub fn epochs_can_advance(&self) -> (r: bool)
        ensures
            r == self.can_renew(),
    {
        let mut i: usize = 0;
        while i < self.records.len()
            invariant
                i <= self.records@.len(),
                self@.records.len() == self.records@.len(),
                forall|k: int| 0 <= k < i ==> #[trigger] self@.records[k].page_lease_epoch < u64::MAX,
            decreases self.records@.len() - i,
        {
            assert(self@.records[i as int] == record_view(self.records@[i as int]));
            if self.records[i].page_lease_epoch == u64::MAX {
                assert(!(self@.records[i as int].page_lease_epoch < u64::MAX));
                return false;
            }
            i = i + 1;
        }
        true
    }
}

} // verus!

verus! {

/// A refused callback has no side effect: neither the registry nor any
/// playback session changes.
pub proof fn law_refused_callback_changes_nothing(
    reg: RegistryView,
    sessions: Map<Seq<char>, crate::control::JournalView>,
    limit: nat,
    cb: CallbackInputView,
    now: u64,
)
    requires
        callback_problem(reg, sessions, cb, now) is Some,
    ensures
        callback_outcome(reg, sessions, limit, cb, now).0 == reg,
        callback_outcome(reg, sessions, limit, cb, now).1 == sessions,
        callback_outcome(reg, sessions, limit, cb, now).2 is Err,
{
}

/// A callback from a handoff candidate never moves the active display's
/// position, telemetry sequence or generation.
pub proof fn law_candidate_callback_keeps_active_telemetry(
    reg: RegistryView,
    sessions: Map<Seq<char>, crate::control::JournalView>,
    limit: nat,
    cb: CallbackInputView,
    now: u64,
)
    requires
        callback_problem(reg, sessions, cb, now) is None,
        !callback_is_current(sessions[cb.session_id].playback, cb),
    ensures
        ({
            let after = callback_outcome(reg, sessions, limit, cb, now).1;
            let before = sessions[cb.session_id].playback;
            &&& after.contains_key(cb.session_id)
            &&& after[cb.session_id].playback.position_ms == before.position_ms
            &&& after[cb.session_id].playback.telemetry_sequence == before.telemetry_sequence
            &&& after[cb.session_id].playback.active_display == before.active_display
            &&& after[cb.session_id].playback.session_revision == before.session_revision
        }),
{
}

/// A lease that has expired is not renewed by a heartbeat, even with the
/// right token; a heartbeat with another token is refused as invalid.
pub proof fn law_expired_or_foreign_lease_is_not_renewed(
    reg: RegistryView,
    display_id: Seq<char>,
    lease_token: Seq<char>,
    now: u64,
)
    requires
        identifier_ok(display_id),
        display_index(reg.records, display_id) is Some,
    ensures
        ({
            let r = reg.records[display_index(reg.records, display_id)->0];
            &&& r.lease_token != lease_token ==> heartbeat_outcome(reg, display_id, lease_token, now)
                == (reg, Err::<HeartbeatView, DisplaySessionError>(DisplaySessionError::LeaseInvalid))
            &&& r.lease_token == lease_token && r.expires_at <= now ==> heartbeat_outcome(
                reg,
                display_id,
                lease_token,
                now,
            ) == (reg, Err::<HeartbeatView, DisplaySessionError>(DisplaySessionError::LeaseExpired))
        }),
{
}

/// A heartbeat accepted at `now` renews the display's lease to `now` plus
/// the lease time (saturating at the largest time): afterwards the display's
/// record expires then, and another heartbeat with the same token at any
/// time from `now` up to that moment is accepted too.
pub proof fn law_heartbeat_renews_lease(
    reg: RegistryView,
    display_id: Seq<char>,
    lease_token: Seq<char>,
    now: u64,
    later: u64,
)
    requires
        records_distinct(reg.records),
        heartbeat_outcome(reg, display_id, lease_token, now).1 is Ok,
    ensures
        ({
            let w = heartbeat_outcome(reg, display_id, lease_token, now).0;
            &&& display_index(w.records, display_id) is Some
            &&& w.records[display_index(w.records, display_id)->0].expires_at == saturating_add(
                now,
                reg.lease_ttl_ms,
            )
            &&& w.records[display_index(w.records, display_id)->0].lease_token == lease_token
            &&& (now <= later < saturating_add(now, reg.lease_ttl_ms) ==> heartbeat_outcome(
                w,
                display_id,
                lease_token,
                later,
            ).1 is Ok)
        }),
{
    let i = display_index(reg.records, display_id)->0;
    let w = heartbeat_outcome(reg, display_id, lease_token, now).0;
    assert(w.records[i].display_id == display_id);
    assert(w.records.len() == reg.records.len());
    assert forall|k: int| 0 <= k < w.records.len() && #[trigger] w.records[k].display_id == display_id implies k
        == i by {
        if k != i {
            assert(w.records[k] == reg.records[k]);
            assert(reg.records[k].display_id != reg.records[i].display_id);
        }
    }
    assert(display_index(w.records, display_id) == Some(i));
}

/// A heartbeat is accepted exactly when the display id is well formed, the
/// display is registered, the token is its lease token and the lease has
/// not expired at `now`. An accepted heartbeat reports the display online
/// with its registration, page-lease epoch and the lease time, and changes
/// only that display's expiry; a refused one changes nothing.
pub proof fn law_heartbeat_acceptance(
    reg: RegistryView,
    display_id: Seq<char>,
    lease_token: Seq<char>,
    now: u64,
)
    requires
        records_distinct(reg.records),
    ensures
        ({
            let (w, r) = heartbeat_outcome(reg, display_id, lease_token, now);
            let idx = display_index(reg.records, display_id);
            let rec = reg.records[idx->0];
            &&& r is Ok == (identifier_ok(display_id) && idx is Some && rec.lease_token == lease_token
                && now < rec.expires_at)
            &&& r is Ok ==> {
                &&& r->Ok_0.online
                &&& r->Ok_0.display_id == display_id
                &&& r->Ok_0.registration_id == rec.registration_id
                &&& r->Ok_0.page_lease_epoch == rec.page_lease_epoch
                &&& r->Ok_0.lease_ttl_ms == reg.lease_ttl_ms
                &&& w.lease_ttl_ms == reg.lease_ttl_ms
                &&& w.records.len() == reg.records.len()
                &&& w.records[idx->0] == (DisplayRecordView {
                    expires_at: saturating_add(now, reg.lease_ttl_ms),
                    ..rec
                })
                &&& forall|k: int|
                    0 <= k < reg.records.len() && k != idx->0 ==> #[trigger] w.records[k]
                        == reg.records[k]
            }
            &&& r is Err ==> w == reg
        }),
{
    let idx = display_index(reg.records, display_id);
    if idx is Some {
        let i = idx->0;
        assert(reg.records[i].display_id == display_id);
    }
}

} // verus!
