//! The read-only projection behind the unified control experience.
//!
//! A `ControlView` is a value computed from domain-owned snapshots. It has no
//! store, executor, replay log or revision of its own; the domain freshness
//! markers are kept only so a client can reconcile a projection with the
//! authorities that produced it.

use crate::auth::{AccountState, PendingIntent, PendingPlaybackAction, SiteAccount, opt_str};
use crate::browser::{BrowserError, BrowserStatus, browser_error_code};
use crate::control::{ControlHandoffSnapshot, ControlSnapshot, HandoffSnapshotView, SnapshotView};
use crate::display_adapter::{DisplayAdapterError, PlaybackObservation};
use crate::display_session::{
    DisplayAdapterErrorKind, DisplayViewInput, ViewInputView, adapter_error_view,
};
use crate::playback::str_eq;
use crate::text::{clone_strings, strings_view};
use vstd::prelude::*;

verus! {

/// Safe copies of the authoritative snapshots and status. This type cannot
/// carry resolved media, vault material, browser input or panel tokens.
#[derive(Clone, Debug)]
pub struct ControlViewInput {
    pub playback: ControlSnapshot,
    pub event_cursor: Option<u64>,
    pub site: SiteViewInput,
    pub browser: BrowserViewInput,
    pub display: DisplayViewInput,
}

/// Safe site and account facts: the account reference and state, never the
/// session reference.
#[derive(Clone, Debug)]
pub struct SiteViewInput {
    pub site_id: Option<String>,
    pub label: Option<String>,
    pub account_ref: Option<String>,
    pub account_state: Option<AccountState>,
    pub pending_intent: Option<PendingIntentInput>,
}

/// Non-secret retry metadata: that a retry exists and what it does, without
/// the source locator payload.
#[derive(Clone, Debug, PartialEq, Eq)]
pub struct PendingIntentInput {
    pub intent_id: String,
    pub action: PendingActionView,
    pub expected_session_revision: Option<u64>,
    pub has_display_ref: bool,
}

#[derive(Clone, Copy, Debug, PartialEq, Eq, Structural)]
pub enum PendingActionView {
    Play,
    Resume,
    Handoff,
}

/// Generic browser worker facts. `sequence` is a browser-domain freshness
/// marker, not a control revision.
#[derive(Clone, Debug)]
pub struct BrowserViewInput {
    pub sequence: u64,
    pub status: Option<BrowserStatus>,
    pub error: Option<BrowserError>,
    pub panel: NativePanelInput,
}

#[derive(Clone, Debug)]
pub struct NativePanelInput {
    pub available: bool,
    pub error: Option<BrowserError>,
    pub capabilities: Vec<String>,
}

#[derive(Clone, Debug, PartialEq, Eq)]
pub struct ControlView {
    pub now_playing: NowPlayingView,
    pub playback_controls: PlaybackControlsView,
    pub playback_context: PlaybackContextView,
    pub active_display: ActiveDisplayView,
    pub site: SiteView,
    pub site_account_state: SiteAccountStateView,
    pub native_site_panel: NativeSitePanelView,
    pub action_required: Option<ActionRequiredView>,
    pub freshness: ControlFreshnessView,
}

#[derive(Clone, Debug, PartialEq, Eq)]
pub struct NowPlayingView {
    pub item_id: String,
    pub item_revision: u64,
    pub media_generation: u64,
    pub state: String,
    pub position_ms: u64,
}

#[derive(Clone, Copy, Debug, PartialEq, Eq, Structural)]
pub struct PlaybackControlsView {
    pub can_play: bool,
    pub can_pause: bool,
    pub can_seek: bool,
    pub can_stop: bool,
    pub can_handoff: bool,
}

#[derive(Clone, Debug, PartialEq, Eq)]
pub struct PlaybackContextView {
    pub session_id: String,
    pub state: String,
    pub handoff: Option<ControlHandoffSnapshot>,
}

#[derive(Clone, Debug, PartialEq, Eq)]
pub struct ActiveDisplayView {
    pub display_id: String,
    pub adapter_type: Option<String>,
    pub label: Option<String>,
    pub online: bool,
    pub observation: Option<PlaybackObservationView>,
    pub error_code: Option<String>,
    pub generation: u64,
}

#[derive(Clone, Copy, Debug, PartialEq, Eq, Structural)]
pub enum PlaybackObservationView {
    Playing,
    Paused,
    Stopped,
    Unknown,
}

#[derive(Clone, Debug, PartialEq, Eq)]
pub struct SiteView {
    pub site_id: Option<String>,
    pub label: Option<String>,
}

#[derive(Clone, Debug, PartialEq, Eq)]
pub struct SiteAccountStateView {
    pub account_ref: Option<String>,
    pub state: AccountState,
    pub pending_intent: Option<PendingIntentInput>,
}

#[derive(Clone, Debug, PartialEq, Eq)]
pub struct NativeSitePanelView {
    pub status: NativePanelStatus,
    pub error_code: Option<String>,
    pub capabilities: Vec<String>,
}

#[derive(Clone, Copy, Debug, PartialEq, Eq, Structural)]
pub enum NativePanelStatus {
    Available,
    NotAttached,
    Unavailable,
}

#[derive(Clone, Debug, PartialEq, Eq)]
pub struct ActionRequiredView {
    pub kind: ActionRequiredKind,
    pub code: String,
}

#[derive(Clone, Copy, Debug, PartialEq, Eq, Structural)]
pub enum ActionRequiredKind {
    SiteAuthentication,
    SiteAccountError,
    NativeSitePanel,
    Display,
    PlaybackHandoff,
}

#[derive(Clone, Copy, Debug, PartialEq, Eq, Structural)]
pub struct ControlFreshnessView {
    pub playback: PlaybackFreshnessView,
    pub event_cursor: Option<u64>,
    pub browser_sequence: u64,
    pub display_generation: u64,
}

#[derive(Clone, Copy, Debug, PartialEq, Eq, Structural)]
pub struct PlaybackFreshnessView {
    pub session_revision: u64,
    pub item_revision: u64,
    pub media_generation: u64,
    pub display_generation: u64,
    pub telemetry_sequence: u64,
}

// ---------------------------------------------------------------------------
// Model
// ---------------------------------------------------------------------------

pub struct PendingModel {
    pub intent_id: Seq<char>,
    pub action: PendingActionView,
    pub expected_session_revision: Option<u64>,
    pub has_display_ref: bool,
}

pub struct SiteInputModel {
    pub site_id: Option<Seq<char>>,
    pub label: Option<Seq<char>>,
    pub account_ref: Option<Seq<char>>,
    pub account_state: Option<AccountState>,
    pub pending_intent: Option<PendingModel>,
}

pub struct PanelInputModel {
    pub available: bool,
    pub error: Option<BrowserError>,
    pub capabilities: Seq<Seq<char>>,
}

pub struct BrowserInputModel {
    pub sequence: u64,
    pub status: Option<BrowserStatus>,
    pub error: Option<BrowserError>,
    pub panel: PanelInputModel,
}

pub struct InputModel {
    pub playback: SnapshotView,
    pub event_cursor: Option<u64>,
    pub site: SiteInputModel,
    pub browser: BrowserInputModel,
    pub display: ViewInputView,
}

pub struct NowPlayingModel {
    pub item_id: Seq<char>,
    pub item_revision: u64,
    pub media_generation: u64,
    pub state: Seq<char>,
    pub position_ms: u64,
}

pub struct ContextModel {
    pub session_id: Seq<char>,
    pub state: Seq<char>,
    pub handoff: Option<HandoffSnapshotView>,
}

pub struct ActiveDisplayModel {
    pub display_id: Seq<char>,
    pub adapter_type: Option<Seq<char>>,
    pub label: Option<Seq<char>>,
    pub online: bool,
    pub observation: Option<PlaybackObservationView>,
    pub error_code: Option<Seq<char>>,
    pub generation: u64,
}

pub struct SiteModel {
    pub site_id: Option<Seq<char>>,
    pub label: Option<Seq<char>>,
}

pub struct AccountStateModel {
    pub account_ref: Option<Seq<char>>,
    pub state: AccountState,
    pub pending_intent: Option<PendingModel>,
}

pub struct PanelModel {
    pub status: NativePanelStatus,
    pub error_code: Option<Seq<char>>,
    pub capabilities: Seq<Seq<char>>,
}

pub struct ActionModel {
    pub kind: ActionRequiredKind,
    pub code: Seq<char>,
}

pub struct ViewModel {
    pub now_playing: NowPlayingModel,
    pub playback_controls: PlaybackControlsView,
    pub playback_context: ContextModel,
    pub active_display: ActiveDisplayModel,
    pub site: SiteModel,
    pub site_account_state: AccountStateModel,
    pub native_site_panel: PanelModel,
    pub action_required: Option<ActionModel>,
    pub freshness: ControlFreshnessView,
}

impl View for PendingIntentInput {
    type V = PendingModel;

    open spec fn view(&self) -> PendingModel {
        PendingModel {
            intent_id: self.intent_id@,
            action: self.action,
            expected_session_revision: self.expected_session_revision,
            has_display_ref: self.has_display_ref,
        }
    }
}

pub open spec fn opt_pending(p: Option<PendingIntentInput>) -> Option<PendingModel> {
    match p {
        Some(p) => Some(p@),
        None => None,
    }
}

impl View for SiteViewInput {
    type V = SiteInputModel;

    open spec fn view(&self) -> SiteInputModel {
        SiteInputModel {
            site_id: opt_str(self.site_id),
            label: opt_str(self.label),
            account_ref: opt_str(self.account_ref),
            account_state: self.account_state,
            pending_intent: opt_pending(self.pending_intent),
        }
    }
}

impl View for NativePanelInput {
    type V = PanelInputModel;

    open spec fn view(&self) -> PanelInputModel {
        PanelInputModel {
            available: self.available,
            error: self.error,
            capabilities: strings_view(self.capabilities@),
        }
    }
}

impl View for BrowserViewInput {
    type V = BrowserInputModel;

    open spec fn view(&self) -> BrowserInputModel {
        BrowserInputModel {
            sequence: self.sequence,
            status: self.status,
            error: self.error,
            panel: self.panel@,
        }
    }
}

impl View for ControlViewInput {
    type V = InputModel;

    open spec fn view(&self) -> InputModel {
        InputModel {
            playback: self.playback@,
            event_cursor: self.event_cursor,
            site: self.site@,
            browser: self.browser@,
            display: self.display@,
        }
    }
}

impl View for ControlView {
    type V = ViewModel;

    open spec fn view(&self) -> ViewModel {
        ViewModel {
            now_playing: NowPlayingModel {
                item_id: self.now_playing.item_id@,
                item_revision: self.now_playing.item_revision,
                media_generation: self.now_playing.media_generation,
                state: self.now_playing.state@,
                position_ms: self.now_playing.position_ms,
            },
            playback_controls: self.playback_controls,
            playback_context: ContextModel {
                session_id: self.playback_context.session_id@,
                state: self.playback_context.state@,
                handoff: match self.playback_context.handoff {
                    Some(h) => Some(h@),
                    None => None,
                },
            },
            active_display: ActiveDisplayModel {
                display_id: self.active_display.display_id@,
                adapter_type: opt_str(self.active_display.adapter_type),
                label: opt_str(self.active_display.label),
                online: self.active_display.online,
                observation: self.active_display.observation,
                error_code: opt_str(self.active_display.error_code),
                generation: self.active_display.generation,
            },
            site: SiteModel {
                site_id: opt_str(self.site.site_id),
                label: opt_str(self.site.label),
            },
            site_account_state: AccountStateModel {
                account_ref: opt_str(self.site_account_state.account_ref),
                state: self.site_account_state.state,
                pending_intent: opt_pending(self.site_account_state.pending_intent),
            },
            native_site_panel: PanelModel {
                status: self.native_site_panel.status,
                error_code: opt_str(self.native_site_panel.error_code),
                capabilities: strings_view(self.native_site_panel.capabilities@),
            },
            action_required: match self.action_required {
                Some(a) => Some(ActionModel { kind: a.kind, code: a.code@ }),
                None => None,
            },
            freshness: self.freshness,
        }
    }
}

pub open spec fn display_error_code_spec(e: DisplayAdapterErrorKind) -> Seq<char> {
    match e {
        DisplayAdapterErrorKind::InvalidConfiguration => "INVALID_CONFIGURATION"@,
        DisplayAdapterErrorKind::ServerUnavailable => "SERVER_UNAVAILABLE"@,
        DisplayAdapterErrorKind::AuthenticationFailed => "AUTHENTICATION_FAILED"@,
        DisplayAdapterErrorKind::TargetMissing => "TARGET_MISSING"@,
        DisplayAdapterErrorKind::TargetOffline => "TARGET_OFFLINE"@,
        DisplayAdapterErrorKind::TargetAmbiguous => "TARGET_AMBIGUOUS"@,
        DisplayAdapterErrorKind::MediaIncompatible => "MEDIA_INCOMPATIBLE"@,
        DisplayAdapterErrorKind::CommandRejected => "COMMAND_REJECTED"@,
        DisplayAdapterErrorKind::PlaybackNotConfirmed(_) => "PLAYBACK_NOT_CONFIRMED"@,
        DisplayAdapterErrorKind::Timeout => "TIMEOUT"@,
        DisplayAdapterErrorKind::Cancelled => "CANCELLED"@,
        DisplayAdapterErrorKind::StaleContext => "STALE_CONTEXT"@,
        DisplayAdapterErrorKind::Protocol(_) => "PROTOCOL_ERROR"@,
    }
}

pub open spec fn observation_view(o: PlaybackObservation) -> PlaybackObservationView {
    match o {
        PlaybackObservation::Playing => PlaybackObservationView::Playing,
        PlaybackObservation::Paused => PlaybackObservationView::Paused,
        PlaybackObservation::Stopped => PlaybackObservationView::Stopped,
        PlaybackObservation::Unknown => PlaybackObservationView::Unknown,
    }
}

/// The available controls follow from the playback state and whether a
/// handoff is in progress.
pub open spec fn controls_of(s: SnapshotView) -> PlaybackControlsView {
    PlaybackControlsView {
        can_play: s.state != "playing"@,
        can_pause: s.state == "playing"@,
        can_seek: s.state != "stopped"@,
        can_stop: s.state != "stopped"@,
        can_handoff: s.handoff is None,
    }
}

pub open spec fn active_display_of(s: SnapshotView, d: ViewInputView) -> ActiveDisplayModel {
    ActiveDisplayModel {
        display_id: s.display.display_id,
        adapter_type: match d.instance {
            Some(i) => Some(i.adapter_type),
            None => None,
        },
        label: match d.instance {
            Some(i) => Some(i.label),
            None => None,
        },
        online: d.instance is Some && d.instance->0.online,
        observation: match d.status {
            Some(st) => Some(observation_view(st.observation)),
            None => None,
        },
        error_code: match d.error {
            Some(e) => Some(display_error_code_spec(e)),
            None => None,
        },
        generation: s.display.generation,
    }
}

pub open spec fn panel_of(p: PanelInputModel) -> PanelModel {
    PanelModel {
        status: if p.available {
            NativePanelStatus::Available
        } else if p.error is Some {
            NativePanelStatus::Unavailable
        } else {
            NativePanelStatus::NotAttached
        },
        error_code: match p.error {
            Some(e) => Some(browser_error_code(e)),
            None => None,
        },
        capabilities: p.capabilities,
    }
}

/// What the user must act on, by a fixed precedence: site authentication,
/// then a site account error, then the browser/native panel, then the
/// display, then a pending handoff. It never changes a domain value.
pub open spec fn action_required_spec(
    site_state: AccountState,
    b: BrowserInputModel,
    d: ViewInputView,
    p: SnapshotView,
) -> Option<ActionModel> {
    if site_state == AccountState::LoginRequired || site_state == AccountState::Expired {
        Some(ActionModel { kind: ActionRequiredKind::SiteAuthentication, code: "SITE_AUTH_REQUIRED"@ })
    } else if site_state == AccountState::Error {
        Some(ActionModel { kind: ActionRequiredKind::SiteAccountError, code: "SITE_ACCOUNT_ERROR"@ })
    } else if b.error is Some || b.panel.error is Some || b.status == Some(BrowserStatus::Crashed)
        || b.status == Some(BrowserStatus::TimedOut) {
        Some(
            ActionModel {
                kind: ActionRequiredKind::NativeSitePanel,
                code: if b.panel.error is Some {
                    browser_error_code(b.panel.error->0)
                } else if b.error is Some {
                    browser_error_code(b.error->0)
                } else {
                    "NATIVE_PANEL_UNAVAILABLE"@
                },
            },
        )
    } else if d.error is Some || !(d.instance is Some && d.instance->0.online) {
        Some(
            ActionModel {
                kind: ActionRequiredKind::Display,
                code: if d.error is Some {
                    display_error_code_spec(d.error->0)
                } else {
                    "DISPLAY_OFFLINE"@
                },
            },
        )
    } else if p.handoff is Some {
        Some(ActionModel { kind: ActionRequiredKind::PlaybackHandoff, code: "HANDOFF_PENDING"@ })
    } else {
        None
    }
}

pub open spec fn site_state_of(i: InputModel) -> AccountState {
    match i.site.account_state {
        Some(s) => s,
        None => AccountState::Unknown,
    }
}

pub open spec fn freshness_of(i: InputModel) -> ControlFreshnessView {
    ControlFreshnessView {
        playback: PlaybackFreshnessView {
            session_revision: i.playback.session_revision,
            item_revision: i.playback.item_revision,
            media_generation: i.playback.media_generation,
            display_generation: i.playback.display.generation,
            telemetry_sequence: i.playback.telemetry_sequence,
        },
        event_cursor: i.event_cursor,
        browser_sequence: i.browser.sequence,
        display_generation: i.playback.display.generation,
    }
}

/// The projection of a control input.
pub open spec fn projection(i: InputModel) -> ViewModel {
    let p = i.playback;
    ViewModel {
        now_playing: NowPlayingModel {
            item_id: p.item_id,
            item_revision: p.item_revision,
            media_generation: p.media_generation,
            state: p.state,
            position_ms: p.position_ms,
        },
        playback_controls: controls_of(p),
        playback_context: ContextModel { session_id: p.session_id, state: p.state, handoff: p.handoff },
        active_display: active_display_of(p, i.display),
        site: SiteModel { site_id: i.site.site_id, label: i.site.label },
        site_account_state: AccountStateModel {
            account_ref: i.site.account_ref,
            state: site_state_of(i),
            pending_intent: i.site.pending_intent,
        },
        native_site_panel: panel_of(i.browser.panel),
        action_required: action_required_spec(site_state_of(i), i.browser, i.display, p),
        freshness: freshness_of(i),
    }
}

/// `a >= b` for optional cursors, where an absent cursor is the least.
pub open spec fn opt_ge(a: Option<u64>, b: Option<u64>) -> bool {
    match (a, b) {
        (_, None) => true,
        (None, Some(_)) => false,
        (Some(x), Some(y)) => x >= y,
    }
}

/// Whether `current` is at least as fresh as `old`, by source-owned markers
/// only: playback is ordered by session revision, then item revision, then
/// media generation and telemetry together; every other marker must not go
/// back.
pub open spec fn fresh_for(current: ControlFreshnessView, old: ControlFreshnessView) -> bool {
    let c = current.playback;
    let o = old.playback;
    let playback_fresh = if c.session_revision != o.session_revision {
        c.session_revision > o.session_revision
    } else if c.item_revision != o.item_revision {
        c.item_revision > o.item_revision
    } else {
        c.media_generation >= o.media_generation && c.telemetry_sequence >= o.telemetry_sequence
    };
    &&& playback_fresh
    &&& c.display_generation >= o.display_generation
    &&& opt_ge(current.event_cursor, old.event_cursor)
    &&& current.browser_sequence >= old.browser_sequence
    &&& current.display_generation >= old.display_generation
}

// ---------------------------------------------------------------------------
// Executable projection
// ---------------------------------------------------------------------------

fn opt_string_copy(o: &Option<String>) -> (r: Option<String>)
    ensures
        opt_str(r) == opt_str(*o),
{
    match o {
        Some(s) => Some(s.clone()),
        None => None,
    }
}

fn pending_copy(o: &Option<PendingIntentInput>) -> (r: Option<PendingIntentInput>)
    ensures
        opt_pending(r) == opt_pending(*o),
{
    match o {
        Some(p) => Some(
            PendingIntentInput {
                intent_id: p.intent_id.clone(),
                action: p.action,
                expected_session_revision: p.expected_session_revision,
                has_display_ref: p.has_display_ref,
            },
        ),
        None => None,
    }
}

fn handoff_copy(h: &Option<ControlHandoffSnapshot>) -> (r: Option<ControlHandoffSnapshot>)
    ensures
        match r {
            Some(x) => h is Some && x@ == h->0@,
            None => h is None,
        },
{
    match h {
        Some(h) => Some(
            ControlHandoffSnapshot {
                transition_id: h.transition_id,
                item_id: h.item_id.clone(),
                item_revision: h.item_revision,
                from_display_id: h.from_display_id.clone(),
                from_generation: h.from_generation,
                target_display_id: h.target_display_id.clone(),
                candidate_generation: h.candidate_generation,
                candidate_position_ms: h.candidate_position_ms,
            },
        ),
        None => None,
    }
}

impl ControlViewInput {
    pub fn new(playback: ControlSnapshot) -> (r: Self)
        ensures
            r.playback@ == playback@,
            r.event_cursor is None,
            r.site@ == SiteViewInput::default_model(),
            r.browser@ == BrowserViewInput::default_model(),
            r.display.instance is None,
            r.display.status is None,
            r.display.error is None,
    {
        ControlViewInput {
            playback,
            event_cursor: None,
            site: SiteViewInput::default(),
            browser: BrowserViewInput::default(),
            display: DisplayViewInput { instance: None, status: None, error: None },
        }
    }
}

impl SiteViewInput {
    pub open spec fn default_model() -> SiteInputModel {
        SiteInputModel {
            site_id: None,
            label: None,
            account_ref: None,
            account_state: None,
            pending_intent: None,
        }
    }

    /// The safe facts of an account: its references, label and state. The
    /// session reference is never copied.
    pub fn from_account(account: &SiteAccount, pending: Option<&PendingIntent>) -> (r: Self)
        ensures
            r@.site_id == Some(account@.site_id),
            r@.label == Some(account@.label),
            r@.account_ref == Some(account@.account_ref),
            r@.account_state == Some(account@.state),
            match pending {
                Some(p) => r@.pending_intent == Some(PendingIntentInput::model_of(*p)),
                None => r@.pending_intent is None,
            },
    {
        SiteViewInput {
            site_id: Some(account.site_id().to_owned()),
            label: Some(account.label().to_owned()),
            account_ref: Some(account.account_ref().to_owned()),
            account_state: Some(account.state()),
            pending_intent: match pending {
                Some(p) => Some(PendingIntentInput::from_intent(p)),
                None => None,
            },
        }
    }
}

impl Default for SiteViewInput {
    fn default() -> (r: Self)
        ensures
            r@ == SiteViewInput::default_model(),
    {
        SiteViewInput {
            site_id: None,
            label: None,
            account_ref: None,
            account_state: None,
            pending_intent: None,
        }
    }
}

impl PendingIntentInput {
    pub open spec fn model_of(intent: PendingIntent) -> PendingModel {
        PendingModel {
            intent_id: intent.intent_id@,
            action: match intent.action {
                PendingPlaybackAction::Play => PendingActionView::Play,
                PendingPlaybackAction::Resume => PendingActionView::Resume,
                PendingPlaybackAction::Handoff => PendingActionView::Handoff,
            },
            expected_session_revision: intent.expected_session_revision,
            has_display_ref: intent.display_ref is Some,
        }
    }

    /// The retry metadata of an intent, without its source locator.
    pub fn from_intent(intent: &PendingIntent) -> (r: Self)
        ensures
            r@ == Self::model_of(*intent),
    {
        PendingIntentInput {
            intent_id: intent.intent_id.clone(),
            action: match intent.action {
                PendingPlaybackAction::Play => PendingActionView::Play,
                PendingPlaybackAction::Resume => PendingActionView::Resume,
                PendingPlaybackAction::Handoff => PendingActionView::Handoff,
            },
            expected_session_revision: intent.expected_session_revision,
            has_display_ref: intent.display_ref.is_some(),
        }
    }
}

impl BrowserViewInput {
    pub open spec fn default_model() -> BrowserInputModel {
        BrowserInputModel {
            sequence: 0,
            status: None,
            error: None,
            panel: NativePanelInput::default_model(),
        }
    }
}

impl Default for BrowserViewInput {
    fn default() -> (r: Self)
        ensures
            r@ == BrowserViewInput::default_model(),
    {
        BrowserViewInput { sequence: 0, status: None, error: None, panel: NativePanelInput::default() }
    }
}

impl NativePanelInput {
    pub open spec fn default_model() -> PanelInputModel {
        PanelInputModel { available: false, error: None, capabilities: Seq::empty() }
    }
}

impl Default for NativePanelInput {
    fn default() -> (r: Self)
        ensures
            r@ == NativePanelInput::default_model(),
    {
        let r = NativePanelInput { available: false, error: None, capabilities: Vec::new() };
        assert(strings_view(r.capabilities@) =~= Seq::<Seq<char>>::empty());
        r
    }
}

pub fn display_error_code(error: &DisplayAdapterError) -> (r: String)
    ensures
        r@ == display_error_code_spec(adapter_error_view(*error)),
{
    let code = match error {
        DisplayAdapterError::InvalidConfiguration => "INVALID_CONFIGURATION",
        DisplayAdapterError::ServerUnavailable => "SERVER_UNAVAILABLE",
        DisplayAdapterError::AuthenticationFailed => "AUTHENTICATION_FAILED",
        DisplayAdapterError::TargetMissing => "TARGET_MISSING",
        DisplayAdapterError::TargetOffline => "TARGET_OFFLINE",
        DisplayAdapterError::TargetAmbiguous => "TARGET_AMBIGUOUS",
        DisplayAdapterError::MediaIncompatible => "MEDIA_INCOMPATIBLE",
        DisplayAdapterError::CommandRejected => "COMMAND_REJECTED",
        DisplayAdapterError::PlaybackNotConfirmed { .. } => "PLAYBACK_NOT_CONFIRMED",
        DisplayAdapterError::Timeout => "TIMEOUT",
        DisplayAdapterError::Cancelled => "CANCELLED",
        DisplayAdapterError::StaleContext => "STALE_CONTEXT",
        DisplayAdapterError::Protocol(_) => "PROTOCOL_ERROR",
    };
    code.to_owned()
}

impl PlaybackControlsView {
    pub fn from_snapshot(snapshot: &ControlSnapshot) -> (r: Self)
        ensures
            r == controls_of(snapshot@),
    {
        let stopped = str_eq(snapshot.state, "stopped");
        let playing = str_eq(snapshot.state, "playing");
        PlaybackControlsView {
            can_play: !playing,
            can_pause: playing,
            can_seek: !stopped,
            can_stop: !stopped,
            can_handoff: snapshot.handoff.is_none(),
        }
    }
}

impl ActiveDisplayView {
    pub fn from_input(playback: &ControlSnapshot, display: &DisplayViewInput) -> (r: Self)
        ensures
            (ActiveDisplayModel {
                display_id: r.display_id@,
                adapter_type: opt_str(r.adapter_type),
                label: opt_str(r.label),
                online: r.online,
                observation: r.observation,
                error_code: opt_str(r.error_code),
                generation: r.generation,
            }) == active_display_of(playback@, display@),
    {
        ActiveDisplayView {
            display_id: playback.active_display.display_id.clone(),
            adapter_type: match &display.instance {
                Some(i) => Some(i.adapter_type.clone()),
                None => None,
            },
            label: match &display.instance {
                Some(i) => Some(i.label.clone()),
                None => None,
            },
            online: match &display.instance {
                Some(i) => i.online,
                None => false,
            },
            observation: match &display.status {
                Some(st) => Some(
                    match st.observation {
                        PlaybackObservation::Playing => PlaybackObservationView::Playing,
                        PlaybackObservation::Paused => PlaybackObservationView::Paused,
                        PlaybackObservation::Stopped => PlaybackObservationView::Stopped,
                        PlaybackObservation::Unknown => PlaybackObservationView::Unknown,
                    },
                ),
                None => None,
            },
            error_code: match &display.error {
                Some(e) => Some(display_error_code(e)),
                None => None,
            },
            generation: playback.active_display.generation,
        }
    }
}

impl NativeSitePanelView {
    pub fn from_input(input: &NativePanelInput) -> (r: Self)
        ensures
            (PanelModel {
                status: r.status,
                error_code: opt_str(r.error_code),
                capabilities: strings_view(r.capabilities@),
            }) == panel_of(input@),
    {
        NativeSitePanelView {
            status: if input.available {
                NativePanelStatus::Available
            } else if input.error.is_some() {
                NativePanelStatus::Unavailable
            } else {
                NativePanelStatus::NotAttached
            },
            error_code: match input.error {
                Some(e) => Some(e.code().to_owned()),
                None => None,
            },
            capabilities: clone_strings(&input.capabilities),
        }
    }
}

fn action(kind: ActionRequiredKind, code: &str) -> (r: Option<ActionRequiredView>)
    ensures
        r is Some && r->0.kind == kind && r->0.code@ == code@,
{
    Some(ActionRequiredView { kind, code: code.to_owned() })
}

pub fn action_required(
    site_state: AccountState,
    browser: &BrowserViewInput,
    display: &DisplayViewInput,
    playback: &ControlSnapshot,
) -> (r: Option<ActionRequiredView>)
    ensures
        match r {
            Some(a) => action_required_spec(site_state, browser@, display@, playback@) == Some(
                ActionModel { kind: a.kind, code: a.code@ },
            ),
            None => action_required_spec(site_state, browser@, display@, playback@) is None,
        },
{
    match site_state {
        AccountState::LoginRequired | AccountState::Expired => {
            return action(ActionRequiredKind::SiteAuthentication, "SITE_AUTH_REQUIRED");
        },
        AccountState::Error => {
            return action(ActionRequiredKind::SiteAccountError, "SITE_ACCOUNT_ERROR");
        },
        _ => {},
    }
    let browser_failed = match browser.status {
        Some(BrowserStatus::Crashed) | Some(BrowserStatus::TimedOut) => true,
        _ => false,
    };
    if browser.error.is_some() || browser.panel.error.is_some() || browser_failed {
        let code = match browser.panel.error {
            Some(e) => e.code(),
            None => match browser.error {
                Some(e) => e.code(),
                None => "NATIVE_PANEL_UNAVAILABLE",
            },
        };
        return action(ActionRequiredKind::NativeSitePanel, code);
    }
    let online = match &display.instance {
        Some(i) => i.online,
        None => false,
    };
    if display.error.is_some() || !online {
        let code = match &display.error {
            Some(e) => display_error_code(e),
            None => "DISPLAY_OFFLINE".to_owned(),
        };
        return Some(ActionRequiredView { kind: ActionRequiredKind::Display, code });
    }
    if playback.handoff.is_some() {
        action(ActionRequiredKind::PlaybackHandoff, "HANDOFF_PENDING")
    } else {
        None
    }
}

impl ControlView {
    /// The current read model, built from fresh authoritative inputs alone.
    pub fn project(input: ControlViewInput) -> (r: Self)
        ensures
            r@ == projection(input@),
    {
        let playback = &input.playback;
        let site_state = match input.site.account_state {
            Some(s) => s,
            None => AccountState::Unknown,
        };
        let active_display = ActiveDisplayView::from_input(playback, &input.display);
        let native_site_panel = NativeSitePanelView::from_input(&input.browser.panel);
        let action_required = action_required(site_state, &input.browser, &input.display, playback);
        let r = ControlView {
            now_playing: NowPlayingView {
                item_id: playback.current_item.item_id.clone(),
                item_revision: playback.current_item.item_revision,
                media_generation: playback.current_item.media_generation,
                state: playback.state.to_owned(),
                position_ms: playback.position_ms,
            },
            playback_controls: PlaybackControlsView::from_snapshot(playback),
            playback_context: PlaybackContextView {
                session_id: playback.session_id.clone(),
                state: playback.state.to_owned(),
                handoff: handoff_copy(&playback.handoff),
            },
            active_display,
            site: SiteView {
                site_id: opt_string_copy(&input.site.site_id),
                label: opt_string_copy(&input.site.label),
            },
            site_account_state: SiteAccountStateView {
                account_ref: opt_string_copy(&input.site.account_ref),
                state: site_state,
                pending_intent: pending_copy(&input.site.pending_intent),
            },
            native_site_panel,
            action_required,
            freshness: ControlFreshnessView {
                playback: PlaybackFreshnessView {
                    session_revision: playback.session_revision,
                    item_revision: playback.current_item.item_revision,
                    media_generation: playback.current_item.media_generation,
                    display_generation: playback.active_display.generation,
                    telemetry_sequence: playback.telemetry_sequence,
                },
                event_cursor: input.event_cursor,
                browser_sequence: input.browser.sequence,
                display_generation: playback.active_display.generation,
            },
        };
        assert(r@.playback_context.handoff == projection(input@).playback_context.handoff);
        assert(r@.action_required == projection(input@).action_required);
        r
    }

    /// Compares source-owned freshness markers only; it keeps no previous
    /// view and creates no global revision.
    pub fn is_fresh_for(&self, previous: &Self) -> (r: bool)
        ensures
            r == fresh_for(self.freshness, previous.freshness),
    {
        let current = &self.freshness;
        let old = &previous.freshness;
        let playback_fresh = if current.playback.session_revision != old.playback.session_revision {
            current.playback.session_revision > old.playback.session_revision
        } else if current.playback.item_revision != old.playback.item_revision {
            current.playback.item_revision > old.playback.item_revision
        } else {
            current.playback.media_generation >= old.playback.media_generation
                && current.playback.telemetry_sequence >= old.playback.telemetry_sequence
        };
        let cursor_fresh = match (current.event_cursor, old.event_cursor) {
            (_, None) => true,
            (None, Some(_)) => false,
            (Some(x), Some(y)) => x >= y,
        };
        playback_fresh && current.playback.display_generation >= old.playback.display_generation
            && cursor_fresh && current.browser_sequence >= old.browser_sequence
            && current.display_generation >= old.display_generation
    }
}

// ---------------------------------------------------------------------------
// Laws
// ---------------------------------------------------------------------------

/// The projection is a function of its input: rebuilding it from the same
/// fresh snapshots, with no history, gives the same view.
pub proof fn law_rebuild_is_equal(a: InputModel, b: InputModel)
    requires
        a == b,
    ensures
        projection(a) == projection(b),
{
}

/// The playback sections depend on the playback snapshot alone: site,
/// browser and display failures never change what is playing, the controls
/// or the playback context.
pub proof fn law_failures_keep_playback_sections(a: InputModel, b: InputModel)
    requires
        a.playback == b.playback,
    ensures
        projection(a).now_playing == projection(b).now_playing,
        projection(a).playback_controls == projection(b).playback_controls,
        projection(a).playback_context == projection(b).playback_context,
        projection(a).freshness.playback == projection(b).freshness.playback,
{
}

/// A site that needs authentication takes precedence over every other
/// required action.
pub proof fn law_site_authentication_takes_precedence(i: InputModel)
    requires
        i.site.account_state == Some(AccountState::LoginRequired) || i.site.account_state == Some(
            AccountState::Expired,
        ),
    ensures
        projection(i).action_required == Some(
            ActionModel { kind: ActionRequiredKind::SiteAuthentication, code: "SITE_AUTH_REQUIRED"@ },
        ),
{
}

/// Every view is as fresh as itself.
pub proof fn law_freshness_is_reflexive(f: ControlFreshnessView)
    ensures
        fresh_for(f, f),
{
}

/// Two views each as fresh as the other carry the same freshness markers.
pub proof fn law_freshness_is_antisymmetric(a: ControlFreshnessView, b: ControlFreshnessView)
    requires
        fresh_for(a, b),
        fresh_for(b, a),
    ensures
        a == b,
{
}

/// Freshness is transitive.
pub proof fn law_freshness_is_transitive(
    a: ControlFreshnessView,
    b: ControlFreshnessView,
    c: ControlFreshnessView,
)
    requires
        fresh_for(a, b),
        fresh_for(b, c),
    ensures
        fresh_for(a, c),
{
}

/// The controls offered follow the playback state: play unless playing,
/// pause only while playing, seek and stop in every state but stopped, and a
/// handoff only when none is in progress. In particular a paused session
/// offers play, seek and stop, and no pause.
pub proof fn law_controls_follow_playback_state(session_id: Seq<char>, v: crate::playback::PlaybackView)
    ensures
        ({
            let c = controls_of(crate::control::snapshot_of(session_id, v));
            &&& c.can_play == (v.state != crate::playback::PlaybackState::Playing)
            &&& c.can_pause == (v.state == crate::playback::PlaybackState::Playing)
            &&& c.can_seek == (v.state != crate::playback::PlaybackState::Stopped)
            &&& c.can_stop == (v.state != crate::playback::PlaybackState::Stopped)
            &&& c.can_handoff == (v.handoff is None)
        }),
{
    reveal_strlit("playing");
    reveal_strlit("paused");
    reveal_strlit("stopped");
    assert("playing"@ != "paused"@) by {
        assert("playing"@[1] != "paused"@[1]);
    }
    assert("playing"@ != "stopped"@) by {
        assert("playing"@[0] != "stopped"@[0]);
    }
    assert("paused"@ != "stopped"@) by {
        assert("paused"@[0] != "stopped"@[0]);
    }
}

} // verus!
