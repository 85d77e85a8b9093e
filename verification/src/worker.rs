//! An in-memory browser worker with deterministic, generic behaviour, for
//! contract tests and hosted harnesses. It launches no browser process: it
//! keeps the sessions, the profile attachments it issued, the native panels
//! and the cancelled operations, and reports generic events.

use crate::browser::{
    status_error, status_error_spec, BrowserAuthMode, BrowserError, BrowserEvent,
    BrowserEventKind, BrowserInput, BrowserNavigationRequest, BrowserOperationId, BrowserSession,
    BrowserSessionId, BrowserStatus, EventKindView, EventView, InputKind, NativePanelSession,
    PanelControlToken, PanelSessionId, PanelView, ProfileAttachmentRef, R008NavigationPolicy,
    BROWSER_EVENT_VERSION, input_kind, kind_view, navigation_allowed,
};
use crate::ids::{is_opaque_token, new_opaque_token, now_ms};
use crate::keyed::{
    has_key, keyed_map, keys_unique, lemma_keyed_absent, lemma_keyed_len, lemma_keyed_lookup, lemma_keyed_map_values,
    lemma_keyed_push, lemma_keyed_remove,
};
use crate::security::{saturating_add_spec, SocketAddress, UrlView};
use vstd::prelude::*;

verus! {

struct SessionRecord {
    id: BrowserSessionId,
    status: BrowserStatus,
    events: Vec<BrowserEvent>,
    sequence: u64,
    profile: Option<ProfileAttachmentRef>,
}

/// What the worker holds for one session: its status, the events it
/// reported in order, the last sequence number and the attached profile.
pub struct SessionState {
    pub status: BrowserStatus,
    pub events: Seq<EventView>,
    pub sequence: u64,
    pub profile: Option<Seq<char>>,
}

pub open spec fn events_view(s: Seq<BrowserEvent>) -> Seq<EventView> {
    s.map_values(|e: BrowserEvent| e@)
}

spec fn profile_view(p: Option<ProfileAttachmentRef>) -> Option<Seq<char>> {
    match p {
        Some(r) => Some(r@),
        None => None,
    }
}

spec fn session_key(r: SessionRecord) -> Seq<char> {
    r.id@
}

spec fn session_val(r: SessionRecord) -> SessionState {
    SessionState {
        status: r.status,
        events: events_view(r.events@),
        sequence: r.sequence,
        profile: profile_view(r.profile),
    }
}

struct ProfileGrant {
    reference: ProfileAttachmentRef,
    expires_at_ms: u64,
}

spec fn grant_key(g: ProfileGrant) -> Seq<char> {
    g.reference@
}

spec fn grant_val(g: ProfileGrant) -> u64 {
    g.expires_at_ms
}

struct PanelRecord {
    id: PanelSessionId,
    worker_session: BrowserSessionId,
    token: PanelControlToken,
    expires_at_ms: u64,
    connected: bool,
}

/// What the worker holds for one native panel.
pub struct PanelState {
    pub worker_session: Seq<char>,
    pub token: Seq<char>,
    pub expires_at_ms: u64,
    pub connected: bool,
}

spec fn panel_key(p: PanelRecord) -> Seq<char> {
    p.id@
}

spec fn panel_val(p: PanelRecord) -> PanelState {
    PanelState {
        worker_session: p.worker_session@,
        token: p.token@,
        expires_at_ms: p.expires_at_ms,
        connected: p.connected,
    }
}

spec fn op_key(x: u64) -> u64 {
    x
}

spec fn op_val(x: u64) -> bool {
    true
}

/// The worker's state: sessions by id, issued profile attachments by
/// reference with their expiry, panels by id, and the cancelled operations.
pub struct WorkerView {
    pub sessions: Map<Seq<char>, SessionState>,
    pub profiles: Map<Seq<char>, u64>,
    pub panels: Map<Seq<char>, PanelState>,
    pub cancelled: Set<u64>,
}

pub open spec fn with_sessions(v: WorkerView, m: Map<Seq<char>, SessionState>) -> WorkerView {
    WorkerView { sessions: m, profiles: v.profiles, panels: v.panels, cancelled: v.cancelled }
}

pub open spec fn with_profiles(v: WorkerView, m: Map<Seq<char>, u64>) -> WorkerView {
    WorkerView { sessions: v.sessions, profiles: m, panels: v.panels, cancelled: v.cancelled }
}

pub open spec fn with_panels(v: WorkerView, m: Map<Seq<char>, PanelState>) -> WorkerView {
    WorkerView { sessions: v.sessions, profiles: v.profiles, panels: m, cancelled: v.cancelled }
}

pub open spec fn with_cancelled(v: WorkerView, c: Set<u64>) -> WorkerView {
    WorkerView { sessions: v.sessions, profiles: v.profiles, panels: v.panels, cancelled: c }
}

/// The session after it reports one more event of kind `k`.
pub open spec fn with_event(s: SessionState, k: EventKindView) -> SessionState {
    SessionState {
        status: s.status,
        events: s.events.push(
            EventView { version: BROWSER_EVENT_VERSION, sequence: (s.sequence + 1) as u64, kind: k },
        ),
        sequence: (s.sequence + 1) as u64,
        profile: s.profile,
    }
}

/// A session just opened: it has reported that it opened.
pub open spec fn opened_state(id: Seq<char>) -> SessionState {
    with_event(
        SessionState { status: BrowserStatus::Open, events: seq![], sequence: 0, profile: None },
        EventKindView::WorkerOpened(id),
    )
}

/// A session that is present can report `n` more events without its
/// sequence number overflowing.
pub open spec fn has_room(v: WorkerView, id: Seq<char>, n: nat) -> bool {
    v.sessions.contains_key(id) ==> v.sessions[id].sequence + n <= u64::MAX
}

/// The events of a session whose sequence number is above `after`.
pub open spec fn events_after(events: Seq<EventView>, after: u64) -> Seq<EventView> {
    events.filter(|e: EventView| e.sequence > after)
}

/// The error an operation on session `id` reports before it acts, if any:
/// the session must be held and open.
pub open spec fn open_check(v: WorkerView, id: Seq<char>) -> Option<BrowserError> {
    if !v.sessions.contains_key(id) {
        Some(BrowserError::InvalidSession)
    } else if v.sessions[id].status != BrowserStatus::Open {
        Some(status_error_spec(v.sessions[id].status))
    } else {
        None
    }
}

pub open spec fn set_profile(s: SessionState, p: Option<Seq<char>>) -> SessionState {
    SessionState { status: s.status, events: s.events, sequence: s.sequence, profile: p }
}

pub open spec fn set_status(s: SessionState, status: BrowserStatus) -> SessionState {
    SessionState { status, events: s.events, sequence: s.sequence, profile: s.profile }
}

/// Attaching profile `profile` to session `id` at time `now`: the profile
/// must have been issued and not expired (an expired one is dropped), and
/// the session must be open.
pub open spec fn attach_outcome(v: WorkerView, now: u64, id: Seq<char>, profile: Seq<char>) -> (
    WorkerView,
    Result<(), BrowserError>,
) {
    if !v.profiles.contains_key(profile) {
        (v, Err(BrowserError::ProfileAttachFailed))
    } else if v.profiles[profile] <= now {
        (with_profiles(v, v.profiles.remove(profile)), Err(BrowserError::SessionExpired))
    } else {
        match open_check(v, id) {
            Some(e) => (v, Err(e)),
            None => (
                with_sessions(
                    v,
                    v.sessions.insert(
                        id,
                        with_event(
                            set_profile(v.sessions[id], Some(profile)),
                            EventKindView::ProfileAttached,
                        ),
                    ),
                ),
                Ok(()),
            ),
        }
    }
}

pub open spec fn detach_outcome(v: WorkerView, id: Seq<char>) -> (WorkerView, Result<(), BrowserError>) {
    match open_check(v, id) {
        Some(e) => (v, Err(e)),
        None => (
            with_sessions(
                v,
                v.sessions.insert(
                    id,
                    with_event(set_profile(v.sessions[id], None), EventKindView::ProfileDetached),
                ),
            ),
            Ok(()),
        ),
    }
}

/// Input of kind `kind` to session `id`: accepted and reported by kind
/// alone, never by content.
pub open spec fn input_outcome(v: WorkerView, id: Seq<char>, kind: InputKind) -> (
    WorkerView,
    Result<(), BrowserError>,
) {
    match open_check(v, id) {
        Some(e) => (v, Err(e)),
        None => (
            with_sessions(
                v,
                v.sessions.insert(
                    id,
                    with_event(
                        with_event(v.sessions[id], EventKindView::InputAccepted(kind)),
                        EventKindView::InputResult(kind, true),
                    ),
                ),
            ),
            Ok(()),
        ),
    }
}

pub open spec fn cancel_outcome(v: WorkerView, id: Seq<char>, op: u64) -> (
    WorkerView,
    Result<(), BrowserError>,
) {
    match open_check(v, id) {
        Some(e) => (v, Err(e)),
        None => (with_cancelled(v, v.cancelled.insert(op)), Ok(())),
    }
}

/// A panel as it is after its worker session ends.
pub open spec fn disconnect_if(p: PanelState, worker: Seq<char>) -> PanelState {
    if p.worker_session == worker {
        PanelState {
            worker_session: p.worker_session,
            token: p.token,
            expires_at_ms: p.expires_at_ms,
            connected: false,
        }
    } else {
        p
    }
}

pub open spec fn disconnected(m: Map<Seq<char>, PanelState>, worker: Seq<char>) -> Map<
    Seq<char>,
    PanelState,
> {
    m.map_values(|p: PanelState| disconnect_if(p, worker))
}

/// Ending session `id` with `status`: it drops its profile, reports `kind`,
/// and every panel bound to it is disconnected.
pub open spec fn terminate_outcome(
    v: WorkerView,
    id: Seq<char>,
    status: BrowserStatus,
    kind: EventKindView,
) -> (WorkerView, Result<(), BrowserError>) {
    match open_check(v, id) {
        Some(e) => (v, Err(e)),
        None => (
            with_panels(
                with_sessions(
                    v,
                    v.sessions.insert(
                        id,
                        with_event(set_profile(set_status(v.sessions[id], status), None), kind),
                    ),
                ),
                disconnected(v.panels, id),
            ),
            Ok(()),
        ),
    }
}

/// The events of a navigation that goes ahead.
pub open spec fn navigated(s: SessionState, url: UrlView) -> SessionState {
    with_event(
        with_event(
            with_event(with_event(s, EventKindView::NavigationStarted(url)), EventKindView::Loading),
            EventKindView::NavigationChanged(url, None),
        ),
        EventKindView::Ready,
    )
}

/// Navigating session `id` to `url` under operation `op`, where `allowed`
/// says whether the navigation policy lets it through. A refusal is
/// reported on the session; a cancelled operation is consumed and reported.
pub open spec fn navigate_outcome(
    v: WorkerView,
    id: Seq<char>,
    op: u64,
    url: UrlView,
    allowed: bool,
) -> (WorkerView, Result<(), BrowserError>) {
    if !allowed {
        if !v.sessions.contains_key(id) {
            (v, Err(BrowserError::InvalidSession))
        } else {
            (
                with_sessions(
                    v,
                    v.sessions.insert(id, with_event(v.sessions[id], EventKindView::NetworkDenied)),
                ),
                Err(BrowserError::NavigationDenied),
            )
        }
    } else if v.cancelled.contains(op) {
        let w = with_cancelled(v, v.cancelled.remove(op));
        if !v.sessions.contains_key(id) {
            (w, Err(BrowserError::InvalidSession))
        } else {
            (
                with_sessions(
                    w,
                    v.sessions.insert(
                        id,
                        with_event(v.sessions[id], EventKindView::OperationCancelled(op)),
                    ),
                ),
                Err(BrowserError::OperationCancelled),
            )
        }
    } else {
        match open_check(v, id) {
            Some(e) => (v, Err(e)),
            None => (with_sessions(v, v.sessions.insert(id, navigated(v.sessions[id], url))), Ok(())),
        }
    }
}

/// Driving a panel with input at time `now`: the panel must be held and
/// live (an expired one is dropped), match the handle's session and token,
/// and be connected; the input then goes to its session.
pub open spec fn panel_control_outcome(v: WorkerView, now: u64, p: PanelView, kind: InputKind) -> (
    WorkerView,
    Result<(), BrowserError>,
) {
    if !v.panels.contains_key(p.id) {
        (v, Err(BrowserError::SessionExpired))
    } else if v.panels[p.id].expires_at_ms <= now || p.expires_at_ms <= now {
        (with_panels(v, v.panels.remove(p.id)), Err(BrowserError::SessionExpired))
    } else if v.panels[p.id].worker_session != p.worker_session || v.panels[p.id].token != p.token {
        (v, Err(BrowserError::SessionExpired))
    } else if !v.panels[p.id].connected {
        (v, Err(BrowserError::PanelDisconnected))
    } else {
        input_outcome(v, p.worker_session, kind)
    }
}

pub open spec fn set_connected(p: PanelState, connected: bool) -> PanelState {
    PanelState {
        worker_session: p.worker_session,
        token: p.token,
        expires_at_ms: p.expires_at_ms,
        connected,
    }
}

pub open spec fn disconnect_outcome(v: WorkerView, p: PanelView) -> (WorkerView, Result<(), BrowserError>) {
    if !v.panels.contains_key(p.id) || v.panels[p.id].token != p.token {
        (v, Err(BrowserError::SessionExpired))
    } else {
        (with_panels(v, v.panels.insert(p.id, set_connected(v.panels[p.id], false))), Ok(()))
    }
}

/// The profile attachments still live at `now`.
pub open spec fn live_profiles(m: Map<Seq<char>, u64>, now: u64) -> Map<Seq<char>, u64> {
    Map::new(|k: Seq<char>| m.contains_key(k) && m[k] > now, |k: Seq<char>| m[k])
}

/// The panels still live at `now`.
pub open spec fn live_panels(m: Map<Seq<char>, PanelState>, now: u64) -> Map<Seq<char>, PanelState> {
    Map::new(|k: Seq<char>| m.contains_key(k) && m[k].expires_at_ms > now, |k: Seq<char>| m[k])
}

/// The in-memory worker.
pub struct FakeBrowserWorker {
    sessions: Vec<SessionRecord>,
    profiles: Vec<ProfileGrant>,
    panels: Vec<PanelRecord>,
    cancelled: Vec<u64>,
}

impl View for FakeBrowserWorker {
    type V = WorkerView;

    closed spec fn view(&self) -> WorkerView {
        WorkerView {
            sessions: keyed_map(
                self.sessions@,
                |r: SessionRecord| session_key(r),
                |r: SessionRecord| session_val(r),
            ),
            profiles: keyed_map(
                self.profiles@,
                |g: ProfileGrant| grant_key(g),
                |g: ProfileGrant| grant_val(g),
            ),
            panels: keyed_map(
                self.panels@,
                |p: PanelRecord| panel_key(p),
                |p: PanelRecord| panel_val(p),
            ),
            cancelled: keyed_map(self.cancelled@, |x: u64| op_key(x), |x: u64| op_val(x)).dom(),
        }
    }
}

fn push_event(rec: &mut SessionRecord, kind: BrowserEventKind)
    requires
        old(rec).sequence < u64::MAX,
    ensures
        final(rec).id@ == old(rec).id@,
        session_val(*final(rec)) == with_event(session_val(*old(rec)), kind_view(kind)),
{
    rec.sequence = rec.sequence + 1;
    let event = BrowserEvent { version: BROWSER_EVENT_VERSION, sequence: rec.sequence, kind };
    rec.events.push(event);
    assert(events_view(rec.events@) =~= events_view(old(rec).events@).push(event@));
}

impl FakeBrowserWorker {
    pub closed spec fn wf(&self) -> bool {
        &&& keys_unique(self.sessions@, |r: SessionRecord| session_key(r))
        &&& keys_unique(self.profiles@, |g: ProfileGrant| grant_key(g))
        &&& keys_unique(self.panels@, |p: PanelRecord| panel_key(p))
        &&& keys_unique(self.cancelled@, |x: u64| op_key(x))
    }

    pub fn new() -> (r: Self)
        ensures
            r.wf(),
            r@.sessions == Map::<Seq<char>, SessionState>::empty(),
            r@.profiles == Map::<Seq<char>, u64>::empty(),
            r@.panels == Map::<Seq<char>, PanelState>::empty(),
            r@.cancelled == Set::<u64>::empty(),
    {
        let r = FakeBrowserWorker {
            sessions: Vec::new(),
            profiles: Vec::new(),
            panels: Vec::new(),
            cancelled: Vec::new(),
        };
        assert(r@.sessions =~= Map::<Seq<char>, SessionState>::empty());
        assert(r@.profiles =~= Map::<Seq<char>, u64>::empty());
        assert(r@.panels =~= Map::<Seq<char>, PanelState>::empty());
        assert(r@.cancelled =~= Set::<u64>::empty());
        r
    }

    fn find_session(&self, id: &BrowserSessionId) -> (r: Option<usize>)
        requires
            self.wf(),
        ensures
            match r {
                Some(i) => i < self.sessions@.len() && self.sessions@[i as int].id@ == id@
                    && self@.sessions.contains_key(id@) && self@.sessions[id@] == session_val(
                    self.sessions@[i as int],
                ),
                None => !self@.sessions.contains_key(id@),
            },
    {
        let mut i: usize = 0;
        while i < self.sessions.len()
            invariant
                self.wf(),
                i <= self.sessions@.len(),
                forall|k: int| 0 <= k < i ==> #[trigger] session_key(self.sessions@[k]) != id@,
            decreases self.sessions@.len() - i,
        {
            if self.sessions[i].id.same_as(id) {
                proof {
                    lemma_keyed_lookup(
                        self.sessions@,
                        |r: SessionRecord| session_key(r),
                        |r: SessionRecord| session_val(r),
                        i as int,
                    );
                }
                return Some(i);
            }
            i = i + 1;
        }
        proof {
            lemma_keyed_absent(
                self.sessions@,
                |r: SessionRecord| session_key(r),
                |r: SessionRecord| session_val(r),
                id@,
            );
        }
        None
    }

    /// Removes the session record at `i` and hands it over.
    fn take_session(&mut self, i: usize) -> (r: SessionRecord)
        requires
            old(self).wf(),
            i < old(self).sessions@.len(),
        ensures
            final(self).wf(),
            r == old(self).sessions@[i as int],
            old(self)@.sessions.contains_key(r.id@),
            old(self)@.sessions[r.id@] == session_val(r),
            final(self)@ == with_sessions(old(self)@, old(self)@.sessions.remove(r.id@)),
    {
        proof {
            lemma_keyed_lookup(
                self.sessions@,
                |r: SessionRecord| session_key(r),
                |r: SessionRecord| session_val(r),
                i as int,
            );
            lemma_keyed_remove(
                self.sessions@,
                |r: SessionRecord| session_key(r),
                |r: SessionRecord| session_val(r),
                i as int,
            );
        }
        self.sessions.remove(i)
    }

    /// Adds a session record whose id is not held.
    fn put_session(&mut self, rec: SessionRecord)
        requires
            old(self).wf(),
            !old(self)@.sessions.contains_key(rec.id@),
        ensures
            final(self).wf(),
            final(self)@ == with_sessions(
                old(self)@,
                old(self)@.sessions.insert(rec.id@, session_val(rec)),
            ),
    {
        proof {
            assert(!has_key(self.sessions@, |r: SessionRecord| session_key(r), session_key(rec)));
            lemma_keyed_push(
                self.sessions@,
                |r: SessionRecord| session_key(r),
                |r: SessionRecord| session_val(r),
                rec,
            );
        }
        self.sessions.push(rec);
    }

    /// Opens a session with a fresh opaque id; it reports that it opened.
    pub fn open_session(&mut self, mode: BrowserAuthMode) -> (r: BrowserSession)
        requires
            old(self).wf(),
        ensures
            final(self).wf(),
            is_opaque_token(r.id_view()),
            r.mode_view() == mode,
            final(self)@ == with_sessions(
                old(self)@,
                old(self)@.sessions.insert(r.id_view(), opened_state(r.id_view())),
            ),
    {
        let session = BrowserSession::new_for_runtime(mode);
        let mut rec = SessionRecord {
            id: session.id().duplicate(),
            status: BrowserStatus::Open,
            events: Vec::new(),
            sequence: 0,
            profile: None,
        };
        assert(events_view(rec.events@) =~= Seq::<EventView>::empty());
        push_event(&mut rec, BrowserEventKind::WorkerOpened { session: session.id().duplicate() });
        match self.find_session(session.id()) {
            Some(i) => {
                let _ = self.take_session(i);
                self.put_session(rec);
                assert(self@.sessions =~= old(self)@.sessions.insert(
                    session.id_view(),
                    opened_state(session.id_view()),
                ));
            },
            None => {
                self.put_session(rec);
            },
        }
        session
    }

    /// The status of a session.
    pub fn status(&self, session: &BrowserSessionId) -> (r: Result<BrowserStatus, BrowserError>)
        requires
            self.wf(),
        ensures
            r == (if self@.sessions.contains_key(session@) {
                Ok::<BrowserStatus, BrowserError>(self@.sessions[session@].status)
            } else {
                Err(BrowserError::InvalidSession)
            }),
    {
        match self.find_session(session) {
            Some(i) => Ok(self.sessions[i].status),
            None => Err(BrowserError::InvalidSession),
        }
    }

    /// The events of a session whose sequence number is above
    /// `after_sequence`, in order.
    pub fn poll_events(&self, session: &BrowserSessionId, after_sequence: u64) -> (r: Result<
        Vec<BrowserEvent>,
        BrowserError,
    >)
        requires
            self.wf(),
        ensures
            self@.sessions.contains_key(session@) ==> r is Ok && events_view(r->Ok_0@)
                == events_after(self@.sessions[session@].events, after_sequence),
            !self@.sessions.contains_key(session@) ==> r == Err::<Vec<BrowserEvent>, BrowserError>(
                BrowserError::InvalidSession,
            ),
    {
        broadcast use vstd::seq_lib::group_seq_properties;

        let i = match self.find_session(session) {
            Some(i) => i,
            None => {
                return Err(BrowserError::InvalidSession);
            },
        };
        let events = &self.sessions[i].events;
        let ghost all = events_view(events@);
        let mut out: Vec<BrowserEvent> = Vec::new();
        let mut k: usize = 0;
        assert(all.take(0) =~= Seq::<EventView>::empty());
        while k < events.len()
            invariant
                k <= events@.len(),
                all == events_view(events@),
                events_view(out@) == events_after(all.take(k as int), after_sequence),
            decreases events@.len() - k,
        {
            assert(all.take(k + 1) =~= all.take(k as int).push(all[k as int]));
            proof {
                all.take(k as int).lemma_filter_push(
                    all[k as int],
                    |e: EventView| e.sequence > after_sequence,
                );
            }
            if events[k].sequence > after_sequence {
                let e = events[k].duplicate();
                let ghost before = out@;
                out.push(e);
                assert(events_view(out@) =~= events_view(before).push(e@));
            }
            k = k + 1;
        }
        assert(all.take(events@.len() as int) =~= all);
        Ok(out)
    }

    fn find_grant(&self, reference: &ProfileAttachmentRef) -> (r: Option<usize>)
        requires
            self.wf(),
        ensures
            match r {
                Some(i) => i < self.profiles@.len() && self.profiles@[i as int].reference@
                    == reference@ && self@.profiles.contains_key(reference@)
                    && self@.profiles[reference@] == self.profiles@[i as int].expires_at_ms,
                None => !self@.profiles.contains_key(reference@),
            },
    {
        let mut i: usize = 0;
        while i < self.profiles.len()
            invariant
                self.wf(),
                i <= self.profiles@.len(),
                forall|k: int| 0 <= k < i ==> #[trigger] grant_key(self.profiles@[k]) != reference@,
            decreases self.profiles@.len() - i,
        {
            if self.profiles[i].reference.same_as(reference) {
                proof {
                    lemma_keyed_lookup(
                        self.profiles@,
                        |g: ProfileGrant| grant_key(g),
                        |g: ProfileGrant| grant_val(g),
                        i as int,
                    );
                }
                return Some(i);
            }
            i = i + 1;
        }
        proof {
            lemma_keyed_absent(
                self.profiles@,
                |g: ProfileGrant| grant_key(g),
                |g: ProfileGrant| grant_val(g),
                reference@,
            );
        }
        None
    }

    fn find_op(&self, op: u64) -> (r: Option<usize>)
        requires
            self.wf(),
        ensures
            match r {
                Some(i) => i < self.cancelled@.len() && self.cancelled@[i as int] == op
                    && self@.cancelled.contains(op),
                None => !self@.cancelled.contains(op),
            },
    {
        let mut i: usize = 0;
        while i < self.cancelled.len()
            invariant
                self.wf(),
                i <= self.cancelled@.len(),
                forall|k: int| 0 <= k < i ==> #[trigger] op_key(self.cancelled@[k]) != op,
            decreases self.cancelled@.len() - i,
        {
            if self.cancelled[i] == op {
                proof {
                    lemma_keyed_lookup(
                        self.cancelled@,
                        |x: u64| op_key(x),
                        |x: u64| op_val(x),
                        i as int,
                    );
                }
                return Some(i);
            }
            i = i + 1;
        }
        proof {
            lemma_keyed_absent(self.cancelled@, |x: u64| op_key(x), |x: u64| op_val(x), op);
        }
        None
    }

    /// Issues an opaque profile attachment at `now_ms` that expires
    /// `ttl_ms` later (saturating). Production references come from the
    /// vault instead.
    pub fn issue_profile_attachment_at(&mut self, now_ms: u64, ttl_ms: u64) -> (r:
        ProfileAttachmentRef)
        requires
            old(self).wf(),
        ensures
            final(self).wf(),
            is_opaque_token(r@),
            final(self)@ == with_profiles(
                old(self)@,
                old(self)@.profiles.insert(r@, saturating_add_spec(now_ms, ttl_ms)),
            ),
    {
        let token = new_opaque_token();
        let reference = ProfileAttachmentRef::from_vault_issued(token.as_str());
        let grant = ProfileGrant {
            reference: reference.duplicate(),
            expires_at_ms: now_ms.saturating_add(ttl_ms),
        };
        match self.find_grant(&reference) {
            Some(i) => {
                proof {
                    lemma_keyed_remove(
                        self.profiles@,
                        |g: ProfileGrant| grant_key(g),
                        |g: ProfileGrant| grant_val(g),
                        i as int,
                    );
                }
                self.profiles.remove(i);
            },
            None => {},
        }
        proof {
            assert(!has_key(self.profiles@, |g: ProfileGrant| grant_key(g), grant_key(grant)));
            lemma_keyed_push(
                self.profiles@,
                |g: ProfileGrant| grant_key(g),
                |g: ProfileGrant| grant_val(g),
                grant,
            );
        }
        self.profiles.push(grant);
        assert(self@.profiles =~= old(self)@.profiles.insert(
            reference@,
            saturating_add_spec(now_ms, ttl_ms),
        ));
        reference
    }

    /// Issues an opaque profile attachment that expires `ttl_ms` from now.
    pub fn issue_profile_attachment(&mut self, ttl_ms: u64) -> (r: ProfileAttachmentRef)
        requires
            old(self).wf(),
        ensures
            final(self).wf(),
            is_opaque_token(r@),
            exists|now: u64|
                final(self)@ == with_profiles(
                    old(self)@,
                    old(self)@.profiles.insert(r@, saturating_add_spec(now, ttl_ms)),
                ),
    {
        let now = now_ms();
        self.issue_profile_attachment_at(now, ttl_ms)
    }

    /// Attaches an issued, unexpired profile to an open session at time
    /// `now_ms`.
    pub fn attach_profile_at(
        &mut self,
        now_ms: u64,
        session: &BrowserSessionId,
        profile: ProfileAttachmentRef,
    ) -> (r: Result<(), BrowserError>)
        requires
            old(self).wf(),
            has_room(old(self)@, session@, 1),
        ensures
            final(self).wf(),
            (final(self)@, r) == attach_outcome(old(self)@, now_ms, session@, profile@),
    {
        let g = match self.find_grant(&profile) {
            Some(g) => g,
            None => {
                return Err(BrowserError::ProfileAttachFailed);
            },
        };
        if self.profiles[g].expires_at_ms <= now_ms {
            proof {
                lemma_keyed_remove(
                    self.profiles@,
                    |g: ProfileGrant| grant_key(g),
                    |g: ProfileGrant| grant_val(g),
                    g as int,
                );
            }
            self.profiles.remove(g);
            return Err(BrowserError::SessionExpired);
        }
        let i = match self.find_session(session) {
            Some(i) => i,
            None => {
                return Err(BrowserError::InvalidSession);
            },
        };
        let status = self.sessions[i].status;
        if status != BrowserStatus::Open {
            return Err(status_error(status));
        }
        let mut rec = self.take_session(i);
        rec.profile = Some(profile);
        push_event(&mut rec, BrowserEventKind::ProfileAttached);
        self.put_session(rec);
        assert(self@.sessions =~= old(self)@.sessions.insert(
            session@,
            with_event(
                set_profile(old(self)@.sessions[session@], Some(profile@)),
                EventKindView::ProfileAttached,
            ),
        ));
        Ok(())
    }

    /// Attaches an issued, unexpired profile to an open session.
    pub fn attach_profile(&mut self, session: &BrowserSessionId, profile: ProfileAttachmentRef) -> (r:
        Result<(), BrowserError>)
        requires
            old(self).wf(),
            has_room(old(self)@, session@, 1),
        ensures
            final(self).wf(),
            exists|now: u64| (final(self)@, r) == attach_outcome(old(self)@, now, session@, profile@),
    {
        let now = now_ms();
        self.attach_profile_at(now, session, profile)
    }

    /// Detaches the profile of an open session.
    pub fn detach_profile(&mut self, session: &BrowserSessionId) -> (r: Result<(), BrowserError>)
        requires
            old(self).wf(),
            has_room(old(self)@, session@, 1),
        ensures
            final(self).wf(),
            (final(self)@, r) == detach_outcome(old(self)@, session@),
    {
        let i = match self.find_session(session) {
            Some(i) => i,
            None => {
                return Err(BrowserError::InvalidSession);
            },
        };
        let status = self.sessions[i].status;
        if status != BrowserStatus::Open {
            return Err(status_error(status));
        }
        let mut rec = self.take_session(i);
        rec.profile = None;
        push_event(&mut rec, BrowserEventKind::ProfileDetached);
        self.put_session(rec);
        assert(self@.sessions =~= old(self)@.sessions.insert(
            session@,
            with_event(set_profile(old(self)@.sessions[session@], None), EventKindView::ProfileDetached),
        ));
        Ok(())
    }

    /// Sends input to an open session. The input's content goes into no
    /// event and no state; only its kind is reported.
    pub fn send_input(&mut self, session: &BrowserSessionId, input: BrowserInput) -> (r: Result<
        (),
        BrowserError,
    >)
        requires
            old(self).wf(),
            has_room(old(self)@, session@, 2),
        ensures
            final(self).wf(),
            (final(self)@, r) == input_outcome(old(self)@, session@, input_kind(input)),
    {
        let i = match self.find_session(session) {
            Some(i) => i,
            None => {
                return Err(BrowserError::InvalidSession);
            },
        };
        let status = self.sessions[i].status;
        if status != BrowserStatus::Open {
            return Err(status_error(status));
        }
        let kind = input.kind();
        let mut rec = self.take_session(i);
        push_event(&mut rec, BrowserEventKind::InputAccepted { kind });
        push_event(&mut rec, BrowserEventKind::InputResult { kind, accepted: true });
        self.put_session(rec);
        assert(self@.sessions =~= old(self)@.sessions.insert(
            session@,
            with_event(
                with_event(old(self)@.sessions[session@], EventKindView::InputAccepted(kind)),
                EventKindView::InputResult(kind, true),
            ),
        ));
        Ok(())
    }

    /// Marks operation `operation_id` cancelled, for an open session.
    pub fn cancel(&mut self, session: &BrowserSessionId, operation_id: BrowserOperationId) -> (r:
        Result<(), BrowserError>)
        requires
            old(self).wf(),
        ensures
            final(self).wf(),
            (final(self)@, r) == cancel_outcome(old(self)@, session@, operation_id.0),
    {
        let i = match self.find_session(session) {
            Some(i) => i,
            None => {
                return Err(BrowserError::InvalidSession);
            },
        };
        let status = self.sessions[i].status;
        if status != BrowserStatus::Open {
            return Err(status_error(status));
        }
        let op = operation_id.0;
        match self.find_op(op) {
            Some(_) => {
                assert(self@.cancelled =~= old(self)@.cancelled.insert(op));
            },
            None => {
                proof {
                    lemma_keyed_push(self.cancelled@, |x: u64| op_key(x), |x: u64| op_val(x), op);
                }
                self.cancelled.push(op);
                assert(self@.cancelled =~= old(self)@.cancelled.insert(op));
            },
        }
        Ok(())
    }

    fn find_panel(&self, id: &PanelSessionId) -> (r: Option<usize>)
        requires
            self.wf(),
        ensures
            match r {
                Some(i) => i < self.panels@.len() && self.panels@[i as int].id@ == id@
                    && self@.panels.contains_key(id@) && self@.panels[id@] == panel_val(
                    self.panels@[i as int],
                ),
                None => !self@.panels.contains_key(id@),
            },
    {
        let mut i: usize = 0;
        while i < self.panels.len()
            invariant
                self.wf(),
                i <= self.panels@.len(),
                forall|k: int| 0 <= k < i ==> #[trigger] panel_key(self.panels@[k]) != id@,
            decreases self.panels@.len() - i,
        {
            if self.panels[i].id.same_as(id) {
                proof {
                    lemma_keyed_lookup(
                        self.panels@,
                        |p: PanelRecord| panel_key(p),
                        |p: PanelRecord| panel_val(p),
                        i as int,
                    );
                }
                return Some(i);
            }
            i = i + 1;
        }
        proof {
            lemma_keyed_absent(
                self.panels@,
                |p: PanelRecord| panel_key(p),
                |p: PanelRecord| panel_val(p),
                id@,
            );
        }
        None
    }

    fn take_panel(&mut self, i: usize) -> (r: PanelRecord)
        requires
            old(self).wf(),
            i < old(self).panels@.len(),
        ensures
            final(self).wf(),
            r == old(self).panels@[i as int],
            old(self)@.panels.contains_key(r.id@),
            old(self)@.panels[r.id@] == panel_val(r),
            final(self)@ == with_panels(old(self)@, old(self)@.panels.remove(r.id@)),
    {
        proof {
            lemma_keyed_lookup(
                self.panels@,
                |p: PanelRecord| panel_key(p),
                |p: PanelRecord| panel_val(p),
                i as int,
            );
            lemma_keyed_remove(
                self.panels@,
                |p: PanelRecord| panel_key(p),
                |p: PanelRecord| panel_val(p),
                i as int,
            );
        }
        self.panels.remove(i)
    }

    fn put_panel(&mut self, rec: PanelRecord)
        requires
            old(self).wf(),
            !old(self)@.panels.contains_key(rec.id@),
        ensures
            final(self).wf(),
            final(self)@ == with_panels(old(self)@, old(self)@.panels.insert(rec.id@, panel_val(rec))),
    {
        proof {
            assert(!has_key(self.panels@, |p: PanelRecord| panel_key(p), panel_key(rec)));
            lemma_keyed_push(
                self.panels@,
                |p: PanelRecord| panel_key(p),
                |p: PanelRecord| panel_val(p),
                rec,
            );
        }
        self.panels.push(rec);
    }

    /// Disconnects every panel bound to `worker`.
    fn disconnect_panels_of(&mut self, worker: &BrowserSessionId)
        requires
            old(self).wf(),
        ensures
            final(self).wf(),
            final(self)@ == with_panels(old(self)@, disconnected(old(self)@.panels, worker@)),
    {
        let ghost start = self.panels@;
        let mut i: usize = 0;
        while i < self.panels.len()
            invariant
                i <= self.panels@.len(),
                self.panels@.len() == start.len(),
                start == old(self).panels@,
                self.sessions@ == old(self).sessions@,
                self.profiles@ == old(self).profiles@,
                self.cancelled@ == old(self).cancelled@,
                old(self).wf(),
                forall|j: int| 0 <= j < start.len() ==> #[trigger] panel_key(self.panels@[j]) == panel_key(start[j]),
                forall|j: int| 0 <= j < i ==> #[trigger] panel_val(self.panels@[j]) == disconnect_if(panel_val(start[j]), worker@),
                forall|j: int| i <= j < start.len() ==> #[trigger] self.panels@[j] == start[j],
            decreases start.len() - i,
        {
            if self.panels[i].worker_session.same_as(worker) {
                let ghost before = self.panels@;
                let rec = self.panels.remove(i);
                let updated = PanelRecord {
                    id: rec.id,
                    worker_session: rec.worker_session,
                    token: rec.token,
                    expires_at_ms: rec.expires_at_ms,
                    connected: false,
                };
                self.panels.insert(i, updated);
                assert(self.panels@ =~= before.update(i as int, updated));
            }
            assert(panel_val(self.panels@[i as int]) == disconnect_if(panel_val(start[i as int]), worker@));
            i = i + 1;
        }
        proof {
            lemma_keyed_map_values(
                start,
                self.panels@,
                |p: PanelRecord| panel_key(p),
                |p: PanelRecord| panel_val(p),
                |p: PanelState| disconnect_if(p, worker@),
            );
        }
    }

    fn terminate(&mut self, session: &BrowserSessionId, status: BrowserStatus, kind: BrowserEventKind) -> (r:
        Result<(), BrowserError>)
        requires
            old(self).wf(),
            has_room(old(self)@, session@, 1),
        ensures
            final(self).wf(),
            (final(self)@, r) == terminate_outcome(old(self)@, session@, status, kind_view(kind)),
    {
        let i = match self.find_session(session) {
            Some(i) => i,
            None => {
                return Err(BrowserError::InvalidSession);
            },
        };
        let current = self.sessions[i].status;
        if current != BrowserStatus::Open {
            return Err(status_error(current));
        }
        let ghost kv = kind_view(kind);
        let mut rec = self.take_session(i);
        rec.status = status;
        rec.profile = None;
        push_event(&mut rec, kind);
        self.put_session(rec);
        assert(self@.sessions =~= old(self)@.sessions.insert(
            session@,
            with_event(set_profile(set_status(old(self)@.sessions[session@], status), None), kv),
        ));
        self.disconnect_panels_of(session);
        Ok(())
    }

    /// Closes an open session.
    pub fn close(&mut self, session: &BrowserSessionId) -> (r: Result<(), BrowserError>)
        requires
            old(self).wf(),
            has_room(old(self)@, session@, 1),
        ensures
            final(self).wf(),
            (final(self)@, r) == terminate_outcome(
                old(self)@,
                session@,
                BrowserStatus::Closed,
                EventKindView::WorkerClosed,
            ),
    {
        self.terminate(session, BrowserStatus::Closed, BrowserEventKind::WorkerClosed)
    }

    /// Simulates a crash of an open session.
    pub fn crash(&mut self, session: &BrowserSessionId) -> (r: Result<(), BrowserError>)
        requires
            old(self).wf(),
            has_room(old(self)@, session@, 1),
        ensures
            final(self).wf(),
            (final(self)@, r) == terminate_outcome(
                old(self)@,
                session@,
                BrowserStatus::Crashed,
                EventKindView::WorkerCrashed,
            ),
    {
        self.terminate(session, BrowserStatus::Crashed, BrowserEventKind::WorkerCrashed)
    }

    /// Simulates a timeout of an open session.
    pub fn timeout(&mut self, session: &BrowserSessionId) -> (r: Result<(), BrowserError>)
        requires
            old(self).wf(),
            has_room(old(self)@, session@, 1),
        ensures
            final(self).wf(),
            (final(self)@, r) == terminate_outcome(
                old(self)@,
                session@,
                BrowserStatus::TimedOut,
                EventKindView::WorkerTimedOut,
            ),
    {
        self.terminate(session, BrowserStatus::TimedOut, BrowserEventKind::WorkerTimedOut)
    }

    /// Navigates a session, given the addresses that the navigation
    /// target's planned host resolved to (none where resolution failed).
    /// The policy decides first; a refusal is reported on the session. A
    /// cancelled operation is then consumed and reported. Otherwise an open
    /// session reports the start, the load, the change and readiness.
    pub fn navigate(
        &mut self,
        session: &BrowserSessionId,
        request: BrowserNavigationRequest,
        policy: &R008NavigationPolicy,
        addresses: Vec<SocketAddress>,
    ) -> (r: Result<(), BrowserError>)
        requires
            old(self).wf(),
            policy.wf(),
            has_room(old(self)@, session@, 4),
        ensures
            final(self).wf(),
            (final(self)@, r) == navigate_outcome(
                old(self)@,
                session@,
                request.operation_view(),
                request.url_view(),
                navigation_allowed(
                    policy.egress_view(),
                    policy.scope_view(),
                    request.url_view(),
                    addresses@,
                ),
            ),
    {
        let url = request.url();
        let authorized = policy.authorize_resolved(url, addresses);
        if authorized.is_err() {
            let i = match self.find_session(session) {
                Some(i) => i,
                None => {
                    return Err(BrowserError::InvalidSession);
                },
            };
            let mut rec = self.take_session(i);
            push_event(&mut rec, BrowserEventKind::NetworkDenied);
            self.put_session(rec);
            assert(self@.sessions =~= old(self)@.sessions.insert(
                session@,
                with_event(old(self)@.sessions[session@], EventKindView::NetworkDenied),
            ));
            return Err(BrowserError::NavigationDenied);
        }
        let op = request.operation_id().0;
        match self.find_op(op) {
            Some(c) => {
                proof {
                    lemma_keyed_remove(
                        self.cancelled@,
                        |x: u64| op_key(x),
                        |x: u64| op_val(x),
                        c as int,
                    );
                }
                self.cancelled.remove(c);
                assert(self@.cancelled =~= old(self)@.cancelled.remove(op));
                let i = match self.find_session(session) {
                    Some(i) => i,
                    None => {
                        return Err(BrowserError::InvalidSession);
                    },
                };
                let mut rec = self.take_session(i);
                push_event(
                    &mut rec,
                    BrowserEventKind::OperationCancelled { operation_id: BrowserOperationId(op) },
                );
                self.put_session(rec);
                assert(self@.sessions =~= old(self)@.sessions.insert(
                    session@,
                    with_event(old(self)@.sessions[session@], EventKindView::OperationCancelled(op)),
                ));
                return Err(BrowserError::OperationCancelled);
            },
            None => {},
        }
        let i = match self.find_session(session) {
            Some(i) => i,
            None => {
                return Err(BrowserError::InvalidSession);
            },
        };
        let status = self.sessions[i].status;
        if status != BrowserStatus::Open {
            return Err(status_error(status));
        }
        let mut rec = self.take_session(i);
        push_event(&mut rec, BrowserEventKind::NavigationStarted { url: url.duplicate() });
        push_event(&mut rec, BrowserEventKind::Loading);
        push_event(&mut rec, BrowserEventKind::NavigationChanged { url: url.duplicate(), title: None });
        push_event(&mut rec, BrowserEventKind::Ready);
        self.put_session(rec);
        assert(self@.sessions =~= old(self)@.sessions.insert(
            session@,
            navigated(old(self)@.sessions[session@], request.url_view()),
        ));
        Ok(())
    }

    /// Opens a native panel on an open session at time `now_ms`, with fresh
    /// opaque id and token, that expires `ttl_ms` later (saturating).
    pub fn open_panel_at(&mut self, now_ms: u64, session: &BrowserSessionId, ttl_ms: u64) -> (r:
        Result<NativePanelSession, BrowserError>)
        requires
            old(self).wf(),
        ensures
            final(self).wf(),
            match r {
                Ok(p) => {
                    &&& open_check(old(self)@, session@) is None
                    &&& p@.worker_session == session@
                    &&& is_opaque_token(p@.id)
                    &&& is_opaque_token(p@.token)
                    &&& p@.expires_at_ms == saturating_add_spec(now_ms, ttl_ms)
                    &&& final(self)@ == with_panels(
                        old(self)@,
                        old(self)@.panels.insert(
                            p@.id,
                            PanelState {
                                worker_session: session@,
                                token: p@.token,
                                expires_at_ms: p@.expires_at_ms,
                                connected: true,
                            },
                        ),
                    )
                },
                Err(e) => {
                    &&& open_check(old(self)@, session@) is Some
                    &&& e == BrowserError::InvalidSession
                    &&& final(self)@ == old(self)@
                },
            },
    {
        let i = match self.find_session(session) {
            Some(i) => i,
            None => {
                return Err(BrowserError::InvalidSession);
            },
        };
        if self.sessions[i].status != BrowserStatus::Open {
            return Err(BrowserError::InvalidSession);
        }
        let id = PanelSessionId::new();
        let token = PanelControlToken::from_issued(new_opaque_token().as_str());
        let expires_at_ms = now_ms.saturating_add(ttl_ms);
        let rec = PanelRecord {
            id: id.duplicate(),
            worker_session: session.duplicate(),
            token: token.duplicate(),
            expires_at_ms,
            connected: true,
        };
        match self.find_panel(&id) {
            Some(k) => {
                let _ = self.take_panel(k);
            },
            None => {},
        }
        self.put_panel(rec);
        let ghost state = PanelState {
            worker_session: session@,
            token: token@,
            expires_at_ms,
            connected: true,
        };
        assert(self@.panels =~= old(self)@.panels.insert(id@, state));
        Ok(NativePanelSession::from_parts(id, session.duplicate(), token, expires_at_ms))
    }

    /// Opens a native panel on an open session that expires `ttl_ms` from
    /// now.
    pub fn open_panel(&mut self, session: &BrowserSessionId, ttl_ms: u64) -> (r: Result<
        NativePanelSession,
        BrowserError,
    >)
        requires
            old(self).wf(),
        ensures
            final(self).wf(),
            r is Ok <==> open_check(old(self)@, session@) is None,
            r is Err ==> r == Err::<NativePanelSession, BrowserError>(BrowserError::InvalidSession)
                && final(self)@ == old(self)@,
            r is Ok ==> r->Ok_0@.worker_session == session@ && final(self)@ == with_panels(
                old(self)@,
                old(self)@.panels.insert(
                    r->Ok_0@.id,
                    PanelState {
                        worker_session: session@,
                        token: r->Ok_0@.token,
                        expires_at_ms: r->Ok_0@.expires_at_ms,
                        connected: true,
                    },
                ),
            ),
    {
        let now = now_ms();
        self.open_panel_at(now, session, ttl_ms)
    }

    /// Drives a session through its panel at time `now_ms`.
    pub fn panel_control_at(&mut self, now_ms: u64, panel: &NativePanelSession, input: BrowserInput) -> (r:
        Result<(), BrowserError>)
        requires
            old(self).wf(),
            has_room(old(self)@, panel@.worker_session, 2),
        ensures
            final(self).wf(),
            (final(self)@, r) == panel_control_outcome(old(self)@, now_ms, panel@, input_kind(input)),
    {
        let k = match self.find_panel(panel.id()) {
            Some(k) => k,
            None => {
                return Err(BrowserError::SessionExpired);
            },
        };
        if self.panels[k].expires_at_ms <= now_ms || panel.expires_at() <= now_ms {
            let _ = self.take_panel(k);
            return Err(BrowserError::SessionExpired);
        }
        if !self.panels[k].worker_session.same_as(panel.worker_session())
            || !self.panels[k].token.same_as(panel.token()) {
            return Err(BrowserError::SessionExpired);
        }
        if !self.panels[k].connected {
            return Err(BrowserError::PanelDisconnected);
        }
        self.send_input(panel.worker_session(), input)
    }

    /// Drives a session through its panel.
    pub fn panel_control(&mut self, panel: &NativePanelSession, input: BrowserInput) -> (r: Result<
        (),
        BrowserError,
    >)
        requires
            old(self).wf(),
            has_room(old(self)@, panel@.worker_session, 2),
        ensures
            final(self).wf(),
            exists|now: u64|
                (final(self)@, r) == panel_control_outcome(old(self)@, now, panel@, input_kind(input)),
    {
        let now = now_ms();
        self.panel_control_at(now, panel, input)
    }

    /// Marks a panel disconnected; its handle's token must match.
    pub fn disconnect_panel(&mut self, panel: &NativePanelSession) -> (r: Result<(), BrowserError>)
        requires
            old(self).wf(),
        ensures
            final(self).wf(),
            (final(self)@, r) == disconnect_outcome(old(self)@, panel@),
    {
        let k = match self.find_panel(panel.id()) {
            Some(k) => k,
            None => {
                return Err(BrowserError::SessionExpired);
            },
        };
        if !self.panels[k].token.same_as(panel.token()) {
            return Err(BrowserError::SessionExpired);
        }
        let rec = self.take_panel(k);
        let updated = PanelRecord {
            id: rec.id,
            worker_session: rec.worker_session,
            token: rec.token,
            expires_at_ms: rec.expires_at_ms,
            connected: false,
        };
        self.put_panel(updated);
        assert(self@.panels =~= old(self)@.panels.insert(
            panel@.id,
            set_connected(old(self)@.panels[panel@.id], false),
        ));
        Ok(())
    }

    /// Reconnects a panel at time `now_ms`: its handle's token must match
    /// and its session must be open. The panel gets a fresh token and
    /// expiry, and the old handle stops working.
    pub fn reconnect_panel_at(&mut self, now_ms: u64, panel: &NativePanelSession, ttl_ms: u64) -> (r:
        Result<NativePanelSession, BrowserError>)
        requires
            old(self).wf(),
        ensures
            final(self).wf(),
            !old(self)@.panels.contains_key(panel@.id) || old(self)@.panels[panel@.id].token
                != panel@.token ==> r == Err::<NativePanelSession, BrowserError>(
                BrowserError::SessionExpired,
            ) && final(self)@ == old(self)@,
            old(self)@.panels.contains_key(panel@.id) && old(self)@.panels[panel@.id].token
                == panel@.token ==> ({
                let ws = old(self)@.panels[panel@.id].worker_session;
                &&& open_check(old(self)@, ws) is Some ==> r == Err::<
                    NativePanelSession,
                    BrowserError,
                >(BrowserError::InvalidSession) && final(self)@ == old(self)@
                &&& open_check(old(self)@, ws) is None ==> r is Ok && r->Ok_0@.id == panel@.id
                    && r->Ok_0@.worker_session == ws && is_opaque_token(r->Ok_0@.token)
                    && r->Ok_0@.expires_at_ms == saturating_add_spec(now_ms, ttl_ms)
                    && final(self)@ == with_panels(
                    old(self)@,
                    old(self)@.panels.insert(
                        panel@.id,
                        PanelState {
                            worker_session: ws,
                            token: r->Ok_0@.token,
                            expires_at_ms: r->Ok_0@.expires_at_ms,
                            connected: true,
                        },
                    ),
                )
            }),
    {
        let k = match self.find_panel(panel.id()) {
            Some(k) => k,
            None => {
                return Err(BrowserError::SessionExpired);
            },
        };
        if !self.panels[k].token.same_as(panel.token()) {
            return Err(BrowserError::SessionExpired);
        }
        let worker_session = self.panels[k].worker_session.duplicate();
        let i = match self.find_session(&worker_session) {
            Some(i) => i,
            None => {
                return Err(BrowserError::InvalidSession);
            },
        };
        if self.sessions[i].status != BrowserStatus::Open {
            return Err(BrowserError::InvalidSession);
        }
        let token = PanelControlToken::from_issued(new_opaque_token().as_str());
        let expires_at_ms = now_ms.saturating_add(ttl_ms);
        let rec = self.take_panel(k);
        let updated = PanelRecord {
            id: rec.id,
            worker_session: rec.worker_session,
            token: token.duplicate(),
            expires_at_ms,
            connected: true,
        };
        self.put_panel(updated);
        let ghost state = PanelState {
            worker_session: worker_session@,
            token: token@,
            expires_at_ms,
            connected: true,
        };
        assert(self@.panels =~= old(self)@.panels.insert(panel@.id, state));
        Ok(NativePanelSession::from_parts(panel.id().duplicate(), worker_session, token, expires_at_ms))
    }

    /// Reconnects a panel with a fresh token that expires `ttl_ms` from now.
    pub fn reconnect_panel(&mut self, panel: &NativePanelSession, ttl_ms: u64) -> (r: Result<
        NativePanelSession,
        BrowserError,
    >)
        requires
            old(self).wf(),
        ensures
            final(self).wf(),
            r is Ok <==> (old(self)@.panels.contains_key(panel@.id)
                && old(self)@.panels[panel@.id].token == panel@.token && open_check(
                old(self)@,
                old(self)@.panels[panel@.id].worker_session,
            ) is None),
            r is Ok ==> r->Ok_0@.id == panel@.id && r->Ok_0@.worker_session
                == old(self)@.panels[panel@.id].worker_session && is_opaque_token(r->Ok_0@.token)
                && final(self)@ == with_panels(
                old(self)@,
                old(self)@.panels.insert(
                    panel@.id,
                    PanelState {
                        worker_session: r->Ok_0@.worker_session,
                        token: r->Ok_0@.token,
                        expires_at_ms: r->Ok_0@.expires_at_ms,
                        connected: true,
                    },
                ),
            ),
            r is Err ==> final(self)@ == old(self)@,
    {
        let now = now_ms();
        self.reconnect_panel_at(now, panel, ttl_ms)
    }

    fn drop_expired_profiles(&mut self, now_ms: u64)
        requires
            old(self).wf(),
        ensures
            final(self).wf(),
            final(self)@ == with_profiles(old(self)@, live_profiles(old(self)@.profiles, now_ms)),
    {
        let mut i: usize = 0;
        while i < self.profiles.len()
            invariant
                self.wf(),
                i <= self.profiles@.len(),
                self.sessions@ == old(self).sessions@,
                self.panels@ == old(self).panels@,
                self.cancelled@ == old(self).cancelled@,
                forall|k: Seq<char>|
                    #[trigger] self@.profiles.contains_key(k) ==> old(self)@.profiles.contains_key(k)
                        && self@.profiles[k] == old(self)@.profiles[k],
                forall|k: Seq<char>|
                    #[trigger] old(self)@.profiles.contains_key(k) && old(self)@.profiles[k] > now_ms
                        ==> self@.profiles.contains_key(k),
                forall|j: int| 0 <= j < i ==> #[trigger] self.profiles@[j].expires_at_ms > now_ms,
            decreases self.profiles@.len() - i,
        {
            if self.profiles[i].expires_at_ms <= now_ms {
                proof {
                    lemma_keyed_lookup(
                        self.profiles@,
                        |g: ProfileGrant| grant_key(g),
                        |g: ProfileGrant| grant_val(g),
                        i as int,
                    );
                    lemma_keyed_remove(
                        self.profiles@,
                        |g: ProfileGrant| grant_key(g),
                        |g: ProfileGrant| grant_val(g),
                        i as int,
                    );
                }
                let ghost before = self.profiles@;
                let ghost prev = self@.profiles;
                self.profiles.remove(i);
                assert forall|k: Seq<char>| #[trigger] self@.profiles.contains_key(k) implies prev.contains_key(k)
                    && self@.profiles[k] == prev[k] by {}
                assert forall|j: int| 0 <= j < i implies #[trigger] self.profiles@[j].expires_at_ms
                    > now_ms by {
                    assert(self.profiles@[j] == before[j]);
                }
            } else {
                i = i + 1;
            }
        }
        assert forall|k: Seq<char>| #[trigger] self@.profiles.contains_key(k) implies self@.profiles[k]
            > now_ms by {
            let a = choose|a: int|
                0 <= a < self.profiles@.len() && #[trigger] grant_key(self.profiles@[a]) == k;
            lemma_keyed_lookup(
                self.profiles@,
                |g: ProfileGrant| grant_key(g),
                |g: ProfileGrant| grant_val(g),
                a,
            );
        }
        assert(self@.profiles =~= live_profiles(old(self)@.profiles, now_ms));
    }

    fn drop_expired_panels(&mut self, now_ms: u64)
        requires
            old(self).wf(),
        ensures
            final(self).wf(),
            final(self)@ == with_panels(old(self)@, live_panels(old(self)@.panels, now_ms)),
    {
        let mut i: usize = 0;
        while i < self.panels.len()
            invariant
                self.wf(),
                i <= self.panels@.len(),
                self.sessions@ == old(self).sessions@,
                self.profiles@ == old(self).profiles@,
                self.cancelled@ == old(self).cancelled@,
                forall|k: Seq<char>|
                    #[trigger] self@.panels.contains_key(k) ==> old(self)@.panels.contains_key(k)
                        && self@.panels[k] == old(self)@.panels[k],
                forall|k: Seq<char>|
                    #[trigger] old(self)@.panels.contains_key(k) && old(self)@.panels[k].expires_at_ms
                        > now_ms ==> self@.panels.contains_key(k),
                forall|j: int| 0 <= j < i ==> #[trigger] self.panels@[j].expires_at_ms > now_ms,
            decreases self.panels@.len() - i,
        {
            if self.panels[i].expires_at_ms <= now_ms {
                proof {
                    lemma_keyed_lookup(
                        self.panels@,
                        |p: PanelRecord| panel_key(p),
                        |p: PanelRecord| panel_val(p),
                        i as int,
                    );
                    lemma_keyed_remove(
                        self.panels@,
                        |p: PanelRecord| panel_key(p),
                        |p: PanelRecord| panel_val(p),
                        i as int,
                    );
                }
                let ghost before = self.panels@;
                let ghost prev = self@.panels;
                self.panels.remove(i);
                assert forall|k: Seq<char>| #[trigger] self@.panels.contains_key(k) implies prev.contains_key(k)
                    && self@.panels[k] == prev[k] by {}
                assert forall|j: int| 0 <= j < i implies #[trigger] self.panels@[j].expires_at_ms
                    > now_ms by {
                    assert(self.panels@[j] == before[j]);
                }
            } else {
                i = i + 1;
            }
        }
        assert forall|k: Seq<char>| #[trigger] self@.panels.contains_key(k) implies self@.panels[k].expires_at_ms
            > now_ms by {
            let a = choose|a: int|
                0 <= a < self.panels@.len() && #[trigger] panel_key(self.panels@[a]) == k;
            lemma_keyed_lookup(
                self.panels@,
                |p: PanelRecord| panel_key(p),
                |p: PanelRecord| panel_val(p),
                a,
            );
        }
        assert(self@.panels =~= live_panels(old(self)@.panels, now_ms));
    }

    /// Drops the profile attachments and panels that expired by `now_ms`,
    /// and tells how many were dropped.
    pub fn cleanup_expired_at(&mut self, now_ms: u64) -> (r: usize)
        requires
            old(self).wf(),
            old(self)@.profiles.len() + old(self)@.panels.len() <= usize::MAX,
        ensures
            final(self).wf(),
            final(self)@ == with_panels(
                with_profiles(old(self)@, live_profiles(old(self)@.profiles, now_ms)),
                live_panels(old(self)@.panels, now_ms),
            ),
            r == old(self)@.profiles.len() + old(self)@.panels.len() - final(self)@.profiles.len()
                - final(self)@.panels.len(),
    {
        proof {
            lemma_keyed_len(
                self.profiles@,
                |g: ProfileGrant| grant_key(g),
                |g: ProfileGrant| grant_val(g),
            );
            lemma_keyed_len(self.panels@, |p: PanelRecord| panel_key(p), |p: PanelRecord| panel_val(p));
        }
        let before = self.profiles.len() + self.panels.len();
        self.drop_expired_profiles(now_ms);
        self.drop_expired_panels(now_ms);
        proof {
            lemma_keyed_len(
                self.profiles@,
                |g: ProfileGrant| grant_key(g),
                |g: ProfileGrant| grant_val(g),
            );
            lemma_keyed_len(self.panels@, |p: PanelRecord| panel_key(p), |p: PanelRecord| panel_val(p));
            assert(self@.profiles.dom().subset_of(old(self)@.profiles.dom()));
            assert(self@.panels.dom().subset_of(old(self)@.panels.dom()));
            vstd::set_lib::lemma_len_subset(self@.profiles.dom(), old(self)@.profiles.dom());
            vstd::set_lib::lemma_len_subset(self@.panels.dom(), old(self)@.panels.dom());
        }
        before - self.profiles.len() - self.panels.len()
    }

    /// Drops the profile attachments and panels that have expired, and
    /// tells how many were dropped.
    pub fn cleanup_expired(&mut self) -> (r: usize)
        requires
            old(self).wf(),
            old(self)@.profiles.len() + old(self)@.panels.len() <= usize::MAX,
        ensures
            final(self).wf(),
            exists|now: u64|
                final(self)@ == with_panels(
                    with_profiles(old(self)@, live_profiles(old(self)@.profiles, now)),
                    live_panels(old(self)@.panels, now),
                ),
            r == old(self)@.profiles.len() + old(self)@.panels.len() - final(self)@.profiles.len()
                - final(self)@.panels.len(),
    {
        let now = now_ms();
        self.cleanup_expired_at(now)
    }

    /// The number of issued profile attachments held.
    pub fn profile_count(&self) -> (r: usize)
        requires
            self.wf(),
        ensures
            r == self@.profiles.len(),
    {
        proof {
            lemma_keyed_len(
                self.profiles@,
                |g: ProfileGrant| grant_key(g),
                |g: ProfileGrant| grant_val(g),
            );
        }
        self.profiles.len()
    }

    /// The number of panels held.
    pub fn panel_count(&self) -> (r: usize)
        requires
            self.wf(),
        ensures
            r == self@.panels.len(),
    {
        proof {
            lemma_keyed_len(self.panels@, |p: PanelRecord| panel_key(p), |p: PanelRecord| panel_val(p));
        }
        self.panels.len()
    }
}

} // verus!

verus! {

/// A session's events are numbered 1, 2, 3, … in the order reported, and
/// carry the current event version.
pub open spec fn numbered(s: SessionState) -> bool {
    &&& s.events.len() == s.sequence
    &&& forall|i: int|
        0 <= i < s.events.len() ==> (#[trigger] s.events[i]).sequence == i + 1
            && s.events[i].version == BROWSER_EVENT_VERSION
}

pub open spec fn all_numbered(v: WorkerView) -> bool {
    forall|id: Seq<char>| #[trigger] v.sessions.contains_key(id) ==> numbered(v.sessions[id])
}

proof fn lemma_with_event_numbered(s: SessionState, k: EventKindView)
    requires
        numbered(s),
        s.sequence < u64::MAX,
    ensures
        numbered(with_event(s, k)),
{
}

/// Every operation of the worker keeps each session's events numbered 1,
/// 2, 3, … in the order they were reported: opening a session, attaching
/// and detaching a profile, input (directly or through a panel),
/// navigation, cancellation, ending a session, and the panel operations.
pub proof fn law_events_stay_numbered(
    v: WorkerView,
    id: Seq<char>,
    now: u64,
    profile: Seq<char>,
    kind: InputKind,
    op: u64,
    url: UrlView,
    allowed: bool,
    status: BrowserStatus,
    ended: EventKindView,
    panel: PanelView,
)
    requires
        all_numbered(v),
        has_room(v, id, 4),
        has_room(v, panel.worker_session, 2),
    ensures
        all_numbered(with_sessions(v, v.sessions.insert(id, opened_state(id)))),
        all_numbered(attach_outcome(v, now, id, profile).0),
        all_numbered(detach_outcome(v, id).0),
        all_numbered(input_outcome(v, id, kind).0),
        all_numbered(cancel_outcome(v, id, op).0),
        all_numbered(navigate_outcome(v, id, op, url, allowed).0),
        all_numbered(terminate_outcome(v, id, status, ended).0),
        all_numbered(panel_control_outcome(v, now, panel, kind).0),
        all_numbered(disconnect_outcome(v, panel).0),
{
    let opened = with_sessions(v, v.sessions.insert(id, opened_state(id)));
    assert forall|k: Seq<char>| #[trigger] opened.sessions.contains_key(k) implies numbered(
        opened.sessions[k],
    ) by {
        if k == id {
            assert(opened_state(id).events.len() == 1);
        }
    }
    if v.sessions.contains_key(id) {
        let s = v.sessions[id];
        lemma_with_event_numbered(set_profile(s, Some(profile)), EventKindView::ProfileAttached);
        lemma_with_event_numbered(set_profile(s, None), EventKindView::ProfileDetached);
        lemma_with_event_numbered(s, EventKindView::InputAccepted(kind));
        lemma_with_event_numbered(
            with_event(s, EventKindView::InputAccepted(kind)),
            EventKindView::InputResult(kind, true),
        );
        lemma_with_event_numbered(s, EventKindView::NetworkDenied);
        lemma_with_event_numbered(s, EventKindView::OperationCancelled(op));
        let s1 = with_event(s, EventKindView::NavigationStarted(url));
        let s2 = with_event(s1, EventKindView::Loading);
        let s3 = with_event(s2, EventKindView::NavigationChanged(url, None));
        lemma_with_event_numbered(s, EventKindView::NavigationStarted(url));
        lemma_with_event_numbered(s1, EventKindView::Loading);
        lemma_with_event_numbered(s2, EventKindView::NavigationChanged(url, None));
        lemma_with_event_numbered(s3, EventKindView::Ready);
        lemma_with_event_numbered(set_profile(set_status(s, status), None), ended);
    }
    if v.sessions.contains_key(panel.worker_session) {
        let s = v.sessions[panel.worker_session];
        lemma_with_event_numbered(s, EventKindView::InputAccepted(kind));
        lemma_with_event_numbered(
            with_event(s, EventKindView::InputAccepted(kind)),
            EventKindView::InputResult(kind, true),
        );
    }
}

/// Operations on one session leave every other session as it was.
pub proof fn law_sessions_are_isolated(
    v: WorkerView,
    a: Seq<char>,
    b: Seq<char>,
    now: u64,
    profile: Seq<char>,
    kind: InputKind,
    op: u64,
    url: UrlView,
    allowed: bool,
    status: BrowserStatus,
    ended: EventKindView,
)
    requires
        a != b,
        v.sessions.contains_key(b),
    ensures
        attach_outcome(v, now, a, profile).0.sessions[b] == v.sessions[b],
        detach_outcome(v, a).0.sessions[b] == v.sessions[b],
        input_outcome(v, a, kind).0.sessions[b] == v.sessions[b],
        cancel_outcome(v, a, op).0.sessions[b] == v.sessions[b],
        navigate_outcome(v, a, op, url, allowed).0.sessions[b] == v.sessions[b],
        terminate_outcome(v, a, status, ended).0.sessions[b] == v.sessions[b],
{
}

/// A cancelled operation's navigation is refused as cancelled, and the
/// cancellation is used up.
pub proof fn law_cancelled_navigation_is_refused(v: WorkerView, id: Seq<char>, op: u64, url: UrlView)
    requires
        open_check(v, id) is None,
    ensures
        ({
            let c = cancel_outcome(v, id, op);
            let n = navigate_outcome(c.0, id, op, url, true);
            &&& c.1 is Ok
            &&& n.1 == Err::<(), BrowserError>(BrowserError::OperationCancelled)
            &&& n.0.cancelled == v.cancelled.remove(op)
        }),
{
    let c = cancel_outcome(v, id, op);
    assert(c.0.cancelled.remove(op) =~= v.cancelled.remove(op));
}

/// A refused navigation is denied and reports no navigation, whatever the
/// session.
pub proof fn law_refused_navigation_starts_nothing(v: WorkerView, id: Seq<char>, op: u64, url: UrlView)
    requires
        v.sessions.contains_key(id),
    ensures
        ({
            let n = navigate_outcome(v, id, op, url, false);
            &&& n.1 == Err::<(), BrowserError>(BrowserError::NavigationDenied)
            &&& n.0.sessions[id] == with_event(v.sessions[id], EventKindView::NetworkDenied)
        }),
{
}

/// Once a session has ended (closed, crashed or timed out), every
/// operation on it reports how it ended, and its panels refuse input as
/// disconnected.
pub proof fn law_ended_session_refuses_operations(
    v: WorkerView,
    id: Seq<char>,
    status: BrowserStatus,
    ended: EventKindView,
    now: u64,
    kind: InputKind,
    op: u64,
    url: UrlView,
    later_status: BrowserStatus,
    later_ended: EventKindView,
    panel: PanelView,
)
    requires
        open_check(v, id) is None,
        status != BrowserStatus::Open,
        v.panels.contains_key(panel.id),
        v.panels[panel.id].worker_session == id,
        panel.worker_session == id,
        v.panels[panel.id].token == panel.token,
        v.panels[panel.id].expires_at_ms > now,
        panel.expires_at_ms > now,
    ensures
        ({
            let t = terminate_outcome(v, id, status, ended);
            let w = t.0;
            &&& t.1 is Ok
            &&& w.sessions[id].status == status
            &&& w.sessions[id].profile is None
            &&& input_outcome(w, id, kind).1 == Err::<(), BrowserError>(status_error_spec(status))
            &&& cancel_outcome(w, id, op).1 == Err::<(), BrowserError>(status_error_spec(status))
            &&& detach_outcome(w, id).1 == Err::<(), BrowserError>(status_error_spec(status))
            &&& terminate_outcome(w, id, later_status, later_ended).1 == Err::<(), BrowserError>(
                status_error_spec(status),
            )
            &&& panel_control_outcome(w, now, panel, kind).1 == Err::<(), BrowserError>(
                BrowserError::PanelDisconnected,
            )
        }),
{
}

/// A disconnected panel refuses input until it is reconnected.
pub proof fn law_disconnected_panel_refuses_input(v: WorkerView, now: u64, panel: PanelView, kind: InputKind)
    requires
        v.panels.contains_key(panel.id),
        v.panels[panel.id].token == panel.token,
        v.panels[panel.id].worker_session == panel.worker_session,
        v.panels[panel.id].expires_at_ms > now,
        panel.expires_at_ms > now,
    ensures
        ({
            let d = disconnect_outcome(v, panel);
            &&& d.1 is Ok
            &&& panel_control_outcome(d.0, now, panel, kind) == (
                d.0,
                Err::<(), BrowserError>(BrowserError::PanelDisconnected),
            )
        }),
{
}

/// An expired profile attachment is refused and dropped.
pub proof fn law_expired_profile_is_refused_and_dropped(
    v: WorkerView,
    now: u64,
    id: Seq<char>,
    profile: Seq<char>,
)
    requires
        v.profiles.contains_key(profile),
        v.profiles[profile] <= now,
    ensures
        ({
            let a = attach_outcome(v, now, id, profile);
            &&& a.1 == Err::<(), BrowserError>(BrowserError::SessionExpired)
            &&& !a.0.profiles.contains_key(profile)
            &&& a.0.sessions == v.sessions
        }),
{
}

} // verus!
