//! Target-neutral contracts for the site browser worker and the native site
//! panel. No browser engine, site DOM or account interpretation lives here:
//! a worker reports generic facts only.

use crate::ids::{is_opaque_token, new_opaque_token, now_ms};
use crate::security::{
    public_ip, plan_outcome, EgressPolicy, EgressScope, PlanView, ServiceView, SocketAddress,
    StructuredCommand, TargetPlan, UrlParts, UrlView, url_parse,
};
use crate::text::{decimal, decimal_string, push_str};
use vstd::prelude::*;

verus! {

pub const BROWSER_EVENT_VERSION: u16 = 1;

/// Stable, generic failure semantics. Variants carry no arbitrary detail, so
/// they are safe to expose in ordinary diagnostics.
#[derive(Clone, Copy, Debug, PartialEq, Eq, Structural)]
pub enum BrowserError {
    WorkerUnavailable,
    ProfileAttachFailed,
    NavigationDenied,
    WorkerCrashed,
    WorkerTimeout,
    SessionExpired,
    PanelDisconnected,
    InterpretationUnavailable,
    SessionClosed,
    OperationCancelled,
    InvalidSession,
    InvalidInput,
}

pub open spec fn browser_error_code(e: BrowserError) -> Seq<char> {
    match e {
        BrowserError::WorkerUnavailable => "WORKER_UNAVAILABLE"@,
        BrowserError::ProfileAttachFailed => "PROFILE_ATTACH_FAILED"@,
        BrowserError::NavigationDenied => "NAVIGATION_DENIED"@,
        BrowserError::WorkerCrashed => "WORKER_CRASHED"@,
        BrowserError::WorkerTimeout => "WORKER_TIMEOUT"@,
        BrowserError::SessionExpired => "SESSION_EXPIRED"@,
        BrowserError::PanelDisconnected => "PANEL_DISCONNECTED"@,
        BrowserError::InterpretationUnavailable => "INTERPRETATION_UNAVAILABLE"@,
        BrowserError::SessionClosed => "SESSION_CLOSED"@,
        BrowserError::OperationCancelled => "OPERATION_CANCELLED"@,
        BrowserError::InvalidSession => "INVALID_SESSION"@,
        BrowserError::InvalidInput => "INVALID_INPUT"@,
    }
}

impl BrowserError {
    pub fn code(self) -> (r: &'static str)
        ensures
            r@ == browser_error_code(self),
    {
        match self {
            BrowserError::WorkerUnavailable => "WORKER_UNAVAILABLE",
            BrowserError::ProfileAttachFailed => "PROFILE_ATTACH_FAILED",
            BrowserError::NavigationDenied => "NAVIGATION_DENIED",
            BrowserError::WorkerCrashed => "WORKER_CRASHED",
            BrowserError::WorkerTimeout => "WORKER_TIMEOUT",
            BrowserError::SessionExpired => "SESSION_EXPIRED",
            BrowserError::PanelDisconnected => "PANEL_DISCONNECTED",
            BrowserError::InterpretationUnavailable => "INTERPRETATION_UNAVAILABLE",
            BrowserError::SessionClosed => "SESSION_CLOSED",
            BrowserError::OperationCancelled => "OPERATION_CANCELLED",
            BrowserError::InvalidSession => "INVALID_SESSION",
            BrowserError::InvalidInput => "INVALID_INPUT",
        }
    }
}

/// Opaque worker/session identity. It is neither a vault path nor a site
/// identifier.
pub struct BrowserSessionId(String);

impl View for BrowserSessionId {
    type V = Seq<char>;

    closed spec fn view(&self) -> Seq<char> {
        self.0@
    }
}

impl BrowserSessionId {
    pub fn new() -> (r: Self)
        ensures
            is_opaque_token(r@),
    {
        BrowserSessionId(new_opaque_token())
    }

    pub fn duplicate(&self) -> (r: Self)
        ensures
            r@ == self@,
    {
        BrowserSessionId(self.0.clone())
    }

    pub fn same_as(&self, other: &BrowserSessionId) -> (r: bool)
        ensures
            r == (self@ == other@),
    {
        self.0.eq(&other.0)
    }

    /// The diagnostic form, which never shows the identity.
    pub fn debug_string(&self) -> (r: String)
        ensures
            r@ == "BrowserSessionId(\"[opaque]\")"@,
    {
        "BrowserSessionId(\"[opaque]\")".to_owned()
    }
}

/// An opaque, short-lived reference to profile material owned by the vault.
/// It holds neither a filesystem path nor profile contents.
pub struct ProfileAttachmentRef(String);

impl View for ProfileAttachmentRef {
    type V = Seq<char>;

    closed spec fn view(&self) -> Seq<char> {
        self.0@
    }
}

impl ProfileAttachmentRef {
    /// Issued by trusted core/vault infrastructure only.
    pub fn from_vault_issued(token: &str) -> (r: Self)
        ensures
            r@ == token@,
    {
        ProfileAttachmentRef(token.to_owned())
    }

    pub fn duplicate(&self) -> (r: Self)
        ensures
            r@ == self@,
    {
        ProfileAttachmentRef(self.0.clone())
    }

    pub fn same_as(&self, other: &ProfileAttachmentRef) -> (r: bool)
        ensures
            r == (self@ == other@),
    {
        self.0.eq(&other.0)
    }

    /// The diagnostic form, which never shows the reference.
    pub fn debug_string(&self) -> (r: String)
        ensures
            r@ == "ProfileAttachmentRef(\"[opaque]\")"@,
    {
        "ProfileAttachmentRef(\"[opaque]\")".to_owned()
    }
}

/// A generic worker mode. Login success is interpreted by a site plugin,
/// never by this contract.
#[derive(Clone, Copy, Debug, PartialEq, Eq, Structural)]
pub enum BrowserAuthMode {
    Passive,
    Interactive,
}

pub struct BrowserSession {
    id: BrowserSessionId,
    mode: BrowserAuthMode,
}

impl BrowserSession {
    pub closed spec fn id_view(&self) -> Seq<char> {
        self.id@
    }

    pub closed spec fn mode_view(&self) -> BrowserAuthMode {
        self.mode
    }

    pub fn new_for_runtime(mode: BrowserAuthMode) -> (r: Self)
        ensures
            is_opaque_token(r.id_view()),
            r.mode_view() == mode,
    {
        BrowserSession { id: BrowserSessionId::new(), mode }
    }

    pub fn id(&self) -> (r: &BrowserSessionId)
        ensures
            r@ == self.id_view(),
    {
        &self.id
    }

    pub fn mode(&self) -> (r: BrowserAuthMode)
        ensures
            r == self.mode_view(),
    {
        self.mode
    }
}

#[derive(Clone, Copy, Debug, PartialEq, Eq, Structural)]
pub enum BrowserStatus {
    Open,
    Closed,
    Crashed,
    TimedOut,
}

/// The error that an operation reports on a session in this status.
pub open spec fn status_error_spec(status: BrowserStatus) -> BrowserError {
    match status {
        BrowserStatus::Closed => BrowserError::SessionClosed,
        BrowserStatus::Crashed => BrowserError::WorkerCrashed,
        BrowserStatus::TimedOut => BrowserError::WorkerTimeout,
        BrowserStatus::Open => BrowserError::WorkerUnavailable,
    }
}

pub fn status_error(status: BrowserStatus) -> (r: BrowserError)
    ensures
        r == status_error_spec(status),
{
    match status {
        BrowserStatus::Closed => BrowserError::SessionClosed,
        BrowserStatus::Crashed => BrowserError::WorkerCrashed,
        BrowserStatus::TimedOut => BrowserError::WorkerTimeout,
        BrowserStatus::Open => BrowserError::WorkerUnavailable,
    }
}

#[derive(Clone, Copy, Debug, PartialEq, Eq, Structural)]
pub struct BrowserOperationId(pub u64);

#[derive(Clone, Copy, Debug, PartialEq, Eq, Structural)]
pub enum PointerButton {
    Primary,
    Secondary,
    Auxiliary,
}

/// The button name that the DevTools protocol uses for a pointer button.
pub fn pointer_button(button: PointerButton) -> (r: &'static str)
    ensures
        r@ == match button {
            PointerButton::Primary => "left"@,
            PointerButton::Secondary => "right"@,
            PointerButton::Auxiliary => "middle"@,
        },
{
    match button {
        PointerButton::Primary => "left",
        PointerButton::Secondary => "right",
        PointerButton::Auxiliary => "middle",
    }
}

#[derive(Clone, Copy, Debug, PartialEq, Eq, Structural)]
pub enum InputKind {
    Key,
    Pointer,
    Text,
    Submit,
}

#[derive(Clone, PartialEq, Eq)]
pub enum BrowserInput {
    Key { key: String },
    Pointer { x: i32, y: i32, button: PointerButton },
    Text { value: String },
    Submit,
}

pub open spec fn input_kind(i: BrowserInput) -> InputKind {
    match i {
        BrowserInput::Key { .. } => InputKind::Key,
        BrowserInput::Pointer { .. } => InputKind::Pointer,
        BrowserInput::Text { .. } => InputKind::Text,
        BrowserInput::Submit => InputKind::Submit,
    }
}

pub open spec fn pointer_button_name(b: PointerButton) -> Seq<char> {
    match b {
        PointerButton::Primary => "Primary"@,
        PointerButton::Secondary => "Secondary"@,
        PointerButton::Auxiliary => "Auxiliary"@,
    }
}

pub open spec fn signed_decimal(v: i32) -> Seq<char> {
    if v < 0 {
        seq!['-'] + decimal((-(v as int)) as nat)
    } else {
        decimal(v as nat)
    }
}

/// The diagnostic form of an input: typed key and text values are redacted;
/// a pointer shows its coordinates and button.
pub open spec fn input_diagnostic(i: BrowserInput) -> Seq<char> {
    match i {
        BrowserInput::Key { .. } => "BrowserInput::Key([REDACTED])"@,
        BrowserInput::Pointer { x, y, button } => "BrowserInput::Pointer { x: "@ + signed_decimal(
            x,
        ) + ", y: "@ + signed_decimal(y) + ", button: "@ + pointer_button_name(button) + " }"@,
        BrowserInput::Text { .. } => "BrowserInput::Text([REDACTED])"@,
        BrowserInput::Submit => "BrowserInput::Submit"@,
    }
}

fn push_signed(out: &mut String, v: i32)
    ensures
        final(out)@ == old(out)@ + signed_decimal(v),
{
    if v < 0 {
        push_str(out, "-");
        let magnitude: u64 = if v == i32::MIN {
            2147483648u64
        } else {
            (-v) as u64
        };
        let digits = decimal_string(magnitude);
        push_str(out, digits.as_str());
        proof {
            reveal_strlit("-");
            assert(old(out)@ + "-"@ + digits@ =~= old(out)@ + signed_decimal(v));
        }
    } else {
        let digits = decimal_string(v as u64);
        push_str(out, digits.as_str());
    }
}

impl BrowserInput {
    pub fn kind(&self) -> (r: InputKind)
        ensures
            r == input_kind(*self),
    {
        match self {
            BrowserInput::Key { .. } => InputKind::Key,
            BrowserInput::Pointer { .. } => InputKind::Pointer,
            BrowserInput::Text { .. } => InputKind::Text,
            BrowserInput::Submit => InputKind::Submit,
        }
    }

    pub fn debug_string(&self) -> (r: String)
        ensures
            r@ == input_diagnostic(*self),
    {
        match self {
            BrowserInput::Key { .. } => "BrowserInput::Key([REDACTED])".to_owned(),
            BrowserInput::Pointer { x, y, button } => {
                let mut out = String::new();
                push_str(&mut out, "BrowserInput::Pointer { x: ");
                push_signed(&mut out, *x);
                push_str(&mut out, ", y: ");
                push_signed(&mut out, *y);
                push_str(&mut out, ", button: ");
                push_str(
                    &mut out,
                    match button {
                        PointerButton::Primary => "Primary",
                        PointerButton::Secondary => "Secondary",
                        PointerButton::Auxiliary => "Auxiliary",
                    },
                );
                push_str(&mut out, " }");
                assert(out@ =~= input_diagnostic(*self));
                out
            },
            BrowserInput::Text { .. } => "BrowserInput::Text([REDACTED])".to_owned(),
            BrowserInput::Submit => "BrowserInput::Submit".to_owned(),
        }
    }
}

#[derive(Clone, Copy, Debug, PartialEq, Eq, Structural)]
pub enum PanelFeature {
    Clipboard,
    FileUpload,
    Audio,
}

/// Panel permissions are deny-by-default; nothing grants these features.
#[derive(Clone, Copy, Debug, PartialEq, Eq, Structural)]
pub struct PanelPermissions;

impl PanelPermissions {
    pub fn allows(self, feature: PanelFeature) -> (r: bool)
        ensures
            !r,
    {
        false
    }
}

pub struct PanelSessionId(String);

impl View for PanelSessionId {
    type V = Seq<char>;

    closed spec fn view(&self) -> Seq<char> {
        self.0@
    }
}

impl PanelSessionId {
    pub fn new() -> (r: Self)
        ensures
            is_opaque_token(r@),
    {
        PanelSessionId(new_opaque_token())
    }

    pub fn duplicate(&self) -> (r: Self)
        ensures
            r@ == self@,
    {
        PanelSessionId(self.0.clone())
    }

    pub fn same_as(&self, other: &PanelSessionId) -> (r: bool)
        ensures
            r == (self@ == other@),
    {
        self.0.eq(&other.0)
    }
}

pub struct PanelControlToken(String);

impl View for PanelControlToken {
    type V = Seq<char>;

    closed spec fn view(&self) -> Seq<char> {
        self.0@
    }
}

impl PanelControlToken {
    /// A control token issued for one panel session.
    pub fn from_issued(token: &str) -> (r: Self)
        ensures
            r@ == token@,
    {
        PanelControlToken(token.to_owned())
    }

    pub fn duplicate(&self) -> (r: Self)
        ensures
            r@ == self@,
    {
        PanelControlToken(self.0.clone())
    }

    pub fn same_as(&self, other: &PanelControlToken) -> (r: bool)
        ensures
            r == (self@ == other@),
    {
        self.0.eq(&other.0)
    }

    /// The diagnostic form, which never shows the token.
    pub fn debug_string(&self) -> (r: String)
        ensures
            r@ == "PanelControlToken(\"[redacted]\")"@,
    {
        "PanelControlToken(\"[redacted]\")".to_owned()
    }
}

/// A short-lived native panel bound to one worker session.
pub struct NativePanelSession {
    id: PanelSessionId,
    worker_session: BrowserSessionId,
    token: PanelControlToken,
    expires_at_ms: u64,
    permissions: PanelPermissions,
}

pub struct PanelView {
    pub id: Seq<char>,
    pub worker_session: Seq<char>,
    pub token: Seq<char>,
    pub expires_at_ms: u64,
}

impl View for NativePanelSession {
    type V = PanelView;

    closed spec fn view(&self) -> PanelView {
        PanelView {
            id: self.id@,
            worker_session: self.worker_session@,
            token: self.token@,
            expires_at_ms: self.expires_at_ms,
        }
    }
}

impl NativePanelSession {
    pub fn worker_session(&self) -> (r: &BrowserSessionId)
        ensures
            r@ == self@.worker_session,
    {
        &self.worker_session
    }

    pub fn permissions(&self) -> (r: PanelPermissions) {
        self.permissions
    }

    pub fn id(&self) -> (r: &PanelSessionId)
        ensures
            r@ == self@.id,
    {
        &self.id
    }

    pub fn token(&self) -> (r: &PanelControlToken)
        ensures
            r@ == self@.token,
    {
        &self.token
    }

    pub fn expires_at(&self) -> (r: u64)
        ensures
            r == self@.expires_at_ms,
    {
        self.expires_at_ms
    }

    /// A panel handle with the given parts.
    pub(crate) fn from_parts(
        id: PanelSessionId,
        worker_session: BrowserSessionId,
        token: PanelControlToken,
        expires_at_ms: u64,
    ) -> (r: Self)
        ensures
            r@ == (PanelView {
                id: id@,
                worker_session: worker_session@,
                token: token@,
                expires_at_ms,
            }),
    {
        NativePanelSession { id, worker_session, token, expires_at_ms, permissions: PanelPermissions }
    }

    /// A panel for `worker_session` issued at `now_ms`, with fresh opaque
    /// id and token, that expires `ttl_ms` later (saturating).
    pub fn new_for_worker_at(worker_session: BrowserSessionId, now_ms: u64, ttl_ms: u64) -> (r:
        Self)
        ensures
            r@.worker_session == worker_session@,
            is_opaque_token(r@.id),
            is_opaque_token(r@.token),
            r@.expires_at_ms == (if now_ms + ttl_ms > u64::MAX {
                u64::MAX as int
            } else {
                now_ms + ttl_ms
            }),
    {
        NativePanelSession {
            id: PanelSessionId::new(),
            worker_session,
            token: PanelControlToken(new_opaque_token()),
            expires_at_ms: now_ms.saturating_add(ttl_ms),
            permissions: PanelPermissions,
        }
    }

    /// A panel for `worker_session` that expires `ttl_ms` from now.
    pub fn new_for_worker(worker_session: BrowserSessionId, ttl_ms: u64) -> (r: Self)
        ensures
            r@.worker_session == worker_session@,
            is_opaque_token(r@.id),
            is_opaque_token(r@.token),
    {
        Self::new_for_worker_at(worker_session, now_ms(), ttl_ms)
    }

    /// The diagnostic form: identities are opaque and the token is redacted.
    pub fn debug_string(&self) -> (r: String)
        ensures
            r@ == "NativePanelSession { id: PanelSessionId(\"[opaque]\"), worker_session: BrowserSessionId(\"[opaque]\"), token: PanelControlToken(\"[redacted]\"), expires_at: \"[short-lived]\", permissions: PanelPermissions }"@,
    {
        "NativePanelSession { id: PanelSessionId(\"[opaque]\"), worker_session: BrowserSessionId(\"[opaque]\"), token: PanelControlToken(\"[redacted]\"), expires_at: \"[short-lived]\", permissions: PanelPermissions }".to_owned()
    }
}

/// The navigation policy of browser workers: navigation goes through the
/// central egress policy, in the public-web scope for every browser-facing
/// caller.
pub struct R008NavigationPolicy {
    egress: EgressPolicy,
    scope: EgressScope,
}

impl R008NavigationPolicy {
    pub closed spec fn egress_view(&self) -> Map<Seq<char>, ServiceView> {
        self.egress@
    }

    pub closed spec fn scope_view(&self) -> EgressScope {
        self.scope
    }

    pub closed spec fn wf(&self) -> bool {
        self.egress.wf()
    }

    /// The browser-facing policy: always public-web scoped; a caller cannot
    /// pick a configured local service through it.
    pub fn public_web(egress: EgressPolicy) -> (r: Self)
        requires
            egress.wf(),
        ensures
            r.wf(),
            r.egress_view() == egress@,
            r.scope_view() == EgressScope::PublicWeb,
    {
        R008NavigationPolicy { egress, scope: EgressScope::PublicWeb }
    }

    /// The trusted core path for a configured internal integration.
    pub fn configured_local_service(egress: EgressPolicy, service_name: &str) -> (r: Self)
        requires
            egress.wf(),
        ensures
            r.wf(),
            r.egress_view() == egress@,
            r.scope_view() matches EgressScope::ConfiguredLocalService(n) && n@ == service_name@,
    {
        R008NavigationPolicy {
            egress,
            scope: EgressScope::ConfiguredLocalService(service_name.to_owned()),
        }
    }

    /// The checks of a navigation target before name resolution; any refusal
    /// is `NavigationDenied`.
    pub fn plan_navigation(&self, url: &UrlParts) -> (r: Result<TargetPlan, BrowserError>)
        requires
            self.wf(),
        ensures
            match r {
                Ok(p) => plan_outcome(self.egress_view(), url@, self.scope_view()) == Ok::<
                    PlanView,
                    crate::security::EgressPolicyError,
                >(PlanView { host: p.host@, port: p.port, require_public: p.require_public }),
                Err(e) => e == BrowserError::NavigationDenied && plan_outcome(
                    self.egress_view(),
                    url@,
                    self.scope_view(),
                ) is Err,
            },
    {
        match self.egress.plan_target(url, &self.scope) {
            Ok(p) => Ok(p),
            Err(_) => Err(BrowserError::NavigationDenied),
        }
    }

    /// Whether a navigation to `url` may go ahead, given the addresses that
    /// the planned host resolved to (none where resolution failed): the plan
    /// must pass, some address must be given, and for the public web every
    /// one must be a public address. Any refusal is `NavigationDenied`.
    pub fn authorize_resolved(&self, url: &UrlParts, addresses: Vec<SocketAddress>) -> (r: Result<
        (),
        BrowserError,
    >)
        requires
            self.wf(),
        ensures
            r is Ok <==> navigation_allowed(self.egress_view(), self.scope_view(), url@, addresses@),
            r is Err ==> r == Err::<(), BrowserError>(BrowserError::NavigationDenied),
    {
        let plan = match self.plan_navigation(url) {
            Ok(p) => p,
            Err(e) => {
                return Err(e);
            },
        };
        match EgressPolicy::accept_resolved(&plan, addresses) {
            Ok(_) => Ok(()),
            Err(_) => Err(BrowserError::NavigationDenied),
        }
    }
}

/// A navigation passes the policy: its target plan passes, and the resolved
/// addresses are not empty and, where the plan asks for the public web, all
/// public.
pub open spec fn navigation_allowed(
    egress: Map<Seq<char>, ServiceView>,
    scope: EgressScope,
    url: UrlView,
    addresses: Seq<SocketAddress>,
) -> bool {
    match plan_outcome(egress, url, scope) {
        Ok(p) => addresses.len() > 0 && (p.require_public ==> forall|i: int|
            0 <= i < addresses.len() ==> public_ip(#[trigger] addresses[i].ip)),
        Err(_) => false,
    }
}

} // verus!

verus! {

/// The class and reported version of the Chromium binary a worker found.
#[derive(Clone, Debug, PartialEq, Eq)]
pub struct ChromiumBinaryInfo {
    pub class: String,
    pub version: String,
}

/// The most characters of a reported version that are kept.
pub const MAX_BINARY_VERSION_CHARS: usize = 128;

/// The first line of `s` as `str::lines` gives it: up to the first `\n`,
/// without a `\r` right before it; `None` for the empty string.
pub open spec fn first_line(s: Seq<char>) -> Option<Seq<char>> {
    if s.len() == 0 {
        None
    } else if !s.contains('\n') {
        Some(s)
    } else {
        let i = choose|i: int| 0 <= i < s.len() && s[i] == '\n' && forall|j: int| 0 <= j < i ==> s[j] != '\n';
        if i > 0 && s[i - 1] == '\r' {
            Some(s.take(i - 1))
        } else {
            Some(s.take(i))
        }
    }
}

pub open spec fn binary_version(stdout: Seq<char>) -> Seq<char> {
    let line = match first_line(stdout) {
        Some(l) => l,
        None => "unknown"@,
    };
    if line.len() > MAX_BINARY_VERSION_CHARS {
        line.take(MAX_BINARY_VERSION_CHARS as int)
    } else {
        line
    }
}

/// What a worker records of a binary of class `class` whose `--version`
/// printed `stdout`: the first line (or `unknown`), at most 128 characters.
pub fn chromium_binary_info(class: &str, stdout: &str) -> (r: ChromiumBinaryInfo)
    ensures
        r.class@ == class@,
        r.version@ == binary_version(stdout@),
{
    proof {
        reveal_strlit("unknown");
    }
    let v = crate::text::chars_of(stdout);
    let mut end: usize = 0;
    while end < v.len() && v[end] != '\n'
        invariant
            end <= v@.len(),
            v@ == stdout@,
            forall|j: int| 0 <= j < end ==> v@[j] != '\n',
        decreases v@.len() - end,
    {
        end = end + 1;
    }
    let ghost s = stdout@;
    let mut line_end = end;
    if end < v.len() {
        proof {
            let w = choose|i: int| 0 <= i < s.len() && s[i] == '\n' && forall|j: int| 0 <= j < i ==> s[j] != '\n';
            assert(s.contains('\n')) by {
                assert(s[end as int] == '\n');
            }
            if w < end {
                assert(s[w] != '\n');
            } else if w > end {
                assert(s[end as int] != '\n');
            }
            assert(w == end);
        }
        if end > 0 && v[end - 1] == '\r' {
            line_end = end - 1;
        }
        assert(first_line(s) == Some(s.take(line_end as int)));
    } else {
        assert(!s.contains('\n'));
        assert(s.take(line_end as int) =~= s);
        assert(s.len() > 0 ==> first_line(s) == Some(s.take(line_end as int)));
    }
    let mut version = String::new();
    if v.len() == 0 {
        push_str(&mut version, "unknown");
        assert(version@ =~= binary_version(s));
    } else {
        let mut i: usize = 0;
        while i < line_end && i < MAX_BINARY_VERSION_CHARS
            invariant
                i <= line_end <= v@.len(),
                i <= MAX_BINARY_VERSION_CHARS,
                v@ == stdout@,
                version@ == v@.take(i as int),
            decreases line_end - i,
        {
            crate::text::push_char(&mut version, v[i]);
            assert(version@ =~= v@.take(i + 1));
            i = i + 1;
        }
        proof {
            let line = s.take(line_end as int);
            if line.len() > MAX_BINARY_VERSION_CHARS {
                assert(version@ =~= line.take(MAX_BINARY_VERSION_CHARS as int));
            } else {
                assert(version@ =~= line);
            }
        }
    }
    ChromiumBinaryInfo { class: class.to_owned(), version }
}

} // verus!

verus! {

// ---------------------------------------------------------------------------
// Navigation requests, commands and events
// ---------------------------------------------------------------------------

/// A random operation id, from `uuid::Uuid::new_v4` (its low 64 bits). The
/// value is random and not stated.
#[verifier::external_body]
fn random_operation_id() -> (r: u64) {
    uuid::Uuid::new_v4().as_u128() as u64
}

/// A navigation to a parsed URL under an operation id.
pub struct BrowserNavigationRequest {
    operation_id: BrowserOperationId,
    url: UrlParts,
}

impl BrowserNavigationRequest {
    pub closed spec fn operation_view(&self) -> u64 {
        self.operation_id.0
    }

    pub closed spec fn url_view(&self) -> crate::security::UrlView {
        self.url@
    }

    /// A request under a fresh random operation id.
    pub fn new(url: UrlParts) -> (r: Self)
        ensures
            r.url_view() == url@,
    {
        BrowserNavigationRequest { operation_id: BrowserOperationId(random_operation_id()), url }
    }

    pub fn with_operation_id(operation_id: BrowserOperationId, url: UrlParts) -> (r: Self)
        ensures
            r.operation_view() == operation_id.0,
            r.url_view() == url@,
    {
        BrowserNavigationRequest { operation_id, url }
    }

    pub fn operation_id(&self) -> (r: BrowserOperationId)
        ensures
            r.0 == self.operation_view(),
    {
        self.operation_id
    }

    pub fn url(&self) -> (r: &UrlParts)
        ensures
            r@ == self.url_view(),
    {
        &self.url
    }

    /// A diagnostic rendering: the operation id and the URL without its
    /// query and fragment.
    pub fn debug_string(&self) -> (r: String)
        ensures
            r@ == navigation_diagnostic(self.operation_view(), self.url_view().before_query),
    {
        let mut out = String::new();
        push_str(&mut out, "BrowserNavigationRequest { operation_id: ");
        let digits = decimal_string(self.operation_id.0);
        push_str(&mut out, digits.as_str());
        push_str(&mut out, ", url: ");
        let safe = crate::security::redact_url(&self.url);
        push_str(&mut out, safe.as_str());
        push_str(&mut out, " }");
        proof {
            reveal_strlit("BrowserNavigationRequest { operation_id: ");
            reveal_strlit(", url: ");
            reveal_strlit(" }");
        }
        assert(out@ =~= navigation_diagnostic(self.operation_view(), self.url_view().before_query));
        out
    }
}

pub open spec fn navigation_diagnostic(operation_id: u64, url: Seq<char>) -> Seq<char> {
    "BrowserNavigationRequest { operation_id: "@ + decimal(operation_id as nat) + ", url: "@ + url
        + " }"@
}

/// Transport-neutral commands to a worker: no site semantics and no server
/// filesystem authority.
pub enum BrowserCommand {
    OpenSession { mode: BrowserAuthMode },
    AttachProfile { profile: ProfileAttachmentRef },
    DetachProfile,
    Navigate { request: BrowserNavigationRequest },
    Input { input: BrowserInput },
    QueryStatus,
    PollEvents { after_sequence: u64 },
    Cancel { operation_id: BrowserOperationId },
    Close,
}

pub open spec fn mode_name(m: BrowserAuthMode) -> Seq<char> {
    match m {
        BrowserAuthMode::Passive => "Passive"@,
        BrowserAuthMode::Interactive => "Interactive"@,
    }
}

pub open spec fn command_diagnostic(c: BrowserCommand) -> Seq<char> {
    match c {
        BrowserCommand::OpenSession { mode } => "BrowserCommand::OpenSession { mode: "@ + mode_name(
            mode,
        ) + " }"@,
        BrowserCommand::AttachProfile { .. } => "BrowserCommand::AttachProfile([OPAQUE])"@,
        BrowserCommand::DetachProfile => "BrowserCommand::DetachProfile"@,
        BrowserCommand::Navigate { request } => "BrowserCommand::Navigate { request: "@
            + navigation_diagnostic(request.operation_view(), request.url_view().before_query)
            + " }"@,
        BrowserCommand::Input { input } => "BrowserCommand::Input { input: "@ + input_diagnostic(
            input,
        ) + " }"@,
        BrowserCommand::QueryStatus => "BrowserCommand::QueryStatus"@,
        BrowserCommand::PollEvents { after_sequence } => "BrowserCommand::PollEvents { after_sequence: "@
            + decimal(after_sequence as nat) + " }"@,
        BrowserCommand::Cancel { operation_id } => "BrowserCommand::Cancel { operation_id: "@
            + decimal(operation_id.0 as nat) + " }"@,
        BrowserCommand::Close => "BrowserCommand::Close"@,
    }
}

fn push_mode(out: &mut String, mode: BrowserAuthMode)
    ensures
        final(out)@ == old(out)@ + mode_name(mode),
{
    proof {
        reveal_strlit("Passive");
        reveal_strlit("Interactive");
    }
    match mode {
        BrowserAuthMode::Passive => push_str(out, "Passive"),
        BrowserAuthMode::Interactive => push_str(out, "Interactive"),
    }
}

fn wrap(prefix: &str, inner: &str) -> (r: String)
    ensures
        r@ == prefix@ + inner@ + " }"@,
{
    let mut out = String::new();
    push_str(&mut out, prefix);
    push_str(&mut out, inner);
    push_str(&mut out, " }");
    assert(out@ =~= prefix@ + inner@ + " }"@);
    out
}

impl BrowserCommand {
    /// A diagnostic rendering that exposes no input text, profile
    /// reference, URL query or fragment.
    pub fn debug_string(&self) -> (r: String)
        ensures
            r@ == command_diagnostic(*self),
    {
        match self {
            BrowserCommand::OpenSession { mode } => {
                let mut name = String::new();
                push_mode(&mut name, *mode);
                assert(name@ =~= mode_name(*mode));
                wrap("BrowserCommand::OpenSession { mode: ", name.as_str())
            },
            BrowserCommand::AttachProfile { .. } => "BrowserCommand::AttachProfile([OPAQUE])".to_owned(),
            BrowserCommand::DetachProfile => "BrowserCommand::DetachProfile".to_owned(),
            BrowserCommand::Navigate { request } => {
                let inner = request.debug_string();
                wrap("BrowserCommand::Navigate { request: ", inner.as_str())
            },
            BrowserCommand::Input { input } => {
                let inner = input.debug_string();
                wrap("BrowserCommand::Input { input: ", inner.as_str())
            },
            BrowserCommand::QueryStatus => "BrowserCommand::QueryStatus".to_owned(),
            BrowserCommand::PollEvents { after_sequence } => {
                let inner = decimal_string(*after_sequence);
                wrap("BrowserCommand::PollEvents { after_sequence: ", inner.as_str())
            },
            BrowserCommand::Cancel { operation_id } => {
                let inner = decimal_string(operation_id.0);
                wrap("BrowserCommand::Cancel { operation_id: ", inner.as_str())
            },
            BrowserCommand::Close => "BrowserCommand::Close".to_owned(),
        }
    }
}

/// Generic worker facts: no selectors, private API names, login rules or
/// site media concepts.
pub enum BrowserEventKind {
    WorkerOpened { session: BrowserSessionId },
    ProfileAttached,
    ProfileDetached,
    NavigationStarted { url: UrlParts },
    NavigationChanged { url: UrlParts, title: Option<String> },
    Loading,
    Ready,
    InputAccepted { kind: InputKind },
    InputResult { kind: InputKind, accepted: bool },
    NetworkDenied,
    Error { code: BrowserError },
    OperationCancelled { operation_id: BrowserOperationId },
    WorkerClosed,
    WorkerCrashed,
    WorkerTimedOut,
}

pub struct BrowserEvent {
    pub version: u16,
    pub sequence: u64,
    pub kind: BrowserEventKind,
}

pub open spec fn input_kind_name(k: InputKind) -> Seq<char> {
    match k {
        InputKind::Key => "Key"@,
        InputKind::Pointer => "Pointer"@,
        InputKind::Text => "Text"@,
        InputKind::Submit => "Submit"@,
    }
}

/// The generic name of an event kind, as the public event projection
/// shows it.
pub open spec fn event_kind_name(k: BrowserEventKind) -> Seq<char> {
    match k {
        BrowserEventKind::WorkerOpened { .. } => "worker_opened"@,
        BrowserEventKind::ProfileAttached => "profile_attached"@,
        BrowserEventKind::ProfileDetached => "profile_detached"@,
        BrowserEventKind::NavigationStarted { .. } => "navigation_started"@,
        BrowserEventKind::NavigationChanged { .. } => "navigation_changed"@,
        BrowserEventKind::Loading => "loading"@,
        BrowserEventKind::Ready => "ready"@,
        BrowserEventKind::InputAccepted { .. } => "input_accepted"@,
        BrowserEventKind::InputResult { .. } => "input_result"@,
        BrowserEventKind::NetworkDenied => "network_denied"@,
        BrowserEventKind::Error { .. } => "error"@,
        BrowserEventKind::OperationCancelled { .. } => "operation_cancelled"@,
        BrowserEventKind::WorkerClosed => "worker_closed"@,
        BrowserEventKind::WorkerCrashed => "worker_crashed"@,
        BrowserEventKind::WorkerTimedOut => "worker_timed_out"@,
    }
}

pub open spec fn event_kind_diagnostic(k: BrowserEventKind) -> Seq<char> {
    match k {
        BrowserEventKind::WorkerOpened { .. } => "BrowserEventKind::WorkerOpened { session: BrowserSessionId(\"[opaque]\") }"@,
        BrowserEventKind::NavigationStarted { url } => "BrowserEventKind::NavigationStarted { url: "@
            + url@.before_query + " }"@,
        BrowserEventKind::NavigationChanged { url, title } => "BrowserEventKind::NavigationChanged { url: "@
            + url@.before_query + (if title is Some {
            ", title: [REDACTED]"@
        } else {
            ", title: None"@
        }) + " }"@,
        BrowserEventKind::InputAccepted { kind } => "BrowserEventKind::InputAccepted { kind: "@
            + input_kind_name(kind) + " }"@,
        BrowserEventKind::InputResult { kind, accepted } => "BrowserEventKind::InputResult { kind: "@
            + input_kind_name(kind) + (if accepted {
            ", accepted: true"@
        } else {
            ", accepted: false"@
        }) + " }"@,
        BrowserEventKind::Error { code } => "BrowserEventKind::Error { code: "@ + browser_error_code(
            code,
        ) + " }"@,
        BrowserEventKind::OperationCancelled { operation_id } => "BrowserEventKind::OperationCancelled { operation_id: "@
            + decimal(operation_id.0 as nat) + " }"@,
        BrowserEventKind::ProfileAttached => "BrowserEventKind::ProfileAttached"@,
        BrowserEventKind::ProfileDetached => "BrowserEventKind::ProfileDetached"@,
        BrowserEventKind::Loading => "BrowserEventKind::Loading"@,
        BrowserEventKind::Ready => "BrowserEventKind::Ready"@,
        BrowserEventKind::NetworkDenied => "BrowserEventKind::NetworkDenied"@,
        BrowserEventKind::WorkerClosed => "BrowserEventKind::WorkerClosed"@,
        BrowserEventKind::WorkerCrashed => "BrowserEventKind::WorkerCrashed"@,
        BrowserEventKind::WorkerTimedOut => "BrowserEventKind::WorkerTimedOut"@,
    }
}

fn push_kind(out: &mut String, kind: InputKind)
    ensures
        final(out)@ == old(out)@ + input_kind_name(kind),
{
    proof {
        reveal_strlit("Key");
        reveal_strlit("Pointer");
        reveal_strlit("Text");
        reveal_strlit("Submit");
    }
    match kind {
        InputKind::Key => push_str(out, "Key"),
        InputKind::Pointer => push_str(out, "Pointer"),
        InputKind::Text => push_str(out, "Text"),
        InputKind::Submit => push_str(out, "Submit"),
    }
}

impl BrowserEventKind {
    /// The generic name of the kind.
    pub fn name(&self) -> (r: &'static str)
        ensures
            r@ == event_kind_name(*self),
    {
        match self {
            BrowserEventKind::WorkerOpened { .. } => "worker_opened",
            BrowserEventKind::ProfileAttached => "profile_attached",
            BrowserEventKind::ProfileDetached => "profile_detached",
            BrowserEventKind::NavigationStarted { .. } => "navigation_started",
            BrowserEventKind::NavigationChanged { .. } => "navigation_changed",
            BrowserEventKind::Loading => "loading",
            BrowserEventKind::Ready => "ready",
            BrowserEventKind::InputAccepted { .. } => "input_accepted",
            BrowserEventKind::InputResult { .. } => "input_result",
            BrowserEventKind::NetworkDenied => "network_denied",
            BrowserEventKind::Error { .. } => "error",
            BrowserEventKind::OperationCancelled { .. } => "operation_cancelled",
            BrowserEventKind::WorkerClosed => "worker_closed",
            BrowserEventKind::WorkerCrashed => "worker_crashed",
            BrowserEventKind::WorkerTimedOut => "worker_timed_out",
        }
    }

    /// A diagnostic rendering: URLs without query or fragment, page titles
    /// redacted.
    pub fn debug_string(&self) -> (r: String)
        ensures
            r@ == event_kind_diagnostic(*self),
    {
        match self {
            BrowserEventKind::WorkerOpened { .. } => "BrowserEventKind::WorkerOpened { session: BrowserSessionId(\"[opaque]\") }".to_owned(),
            BrowserEventKind::NavigationStarted { url } => {
                let safe = crate::security::redact_url(url);
                wrap("BrowserEventKind::NavigationStarted { url: ", safe.as_str())
            },
            BrowserEventKind::NavigationChanged { url, title } => {
                let mut inner = crate::security::redact_url(url);
                match title {
                    Some(_) => push_str(&mut inner, ", title: [REDACTED]"),
                    None => push_str(&mut inner, ", title: None"),
                }
                let r = wrap("BrowserEventKind::NavigationChanged { url: ", inner.as_str());
                assert(r@ =~= event_kind_diagnostic(*self));
                r
            },
            BrowserEventKind::InputAccepted { kind } => {
                let mut inner = String::new();
                push_kind(&mut inner, *kind);
                assert(inner@ =~= input_kind_name(*kind));
                wrap("BrowserEventKind::InputAccepted { kind: ", inner.as_str())
            },
            BrowserEventKind::InputResult { kind, accepted } => {
                let mut inner = String::new();
                push_kind(&mut inner, *kind);
                if *accepted {
                    push_str(&mut inner, ", accepted: true");
                } else {
                    push_str(&mut inner, ", accepted: false");
                }
                let r = wrap("BrowserEventKind::InputResult { kind: ", inner.as_str());
                assert(r@ =~= event_kind_diagnostic(*self));
                r
            },
            BrowserEventKind::Error { code } => {
                let inner = code.code();
                wrap("BrowserEventKind::Error { code: ", inner)
            },
            BrowserEventKind::OperationCancelled { operation_id } => {
                let inner = decimal_string(operation_id.0);
                wrap("BrowserEventKind::OperationCancelled { operation_id: ", inner.as_str())
            },
            BrowserEventKind::ProfileAttached => "BrowserEventKind::ProfileAttached".to_owned(),
            BrowserEventKind::ProfileDetached => "BrowserEventKind::ProfileDetached".to_owned(),
            BrowserEventKind::Loading => "BrowserEventKind::Loading".to_owned(),
            BrowserEventKind::Ready => "BrowserEventKind::Ready".to_owned(),
            BrowserEventKind::NetworkDenied => "BrowserEventKind::NetworkDenied".to_owned(),
            BrowserEventKind::WorkerClosed => "BrowserEventKind::WorkerClosed".to_owned(),
            BrowserEventKind::WorkerCrashed => "BrowserEventKind::WorkerCrashed".to_owned(),
            BrowserEventKind::WorkerTimedOut => "BrowserEventKind::WorkerTimedOut".to_owned(),
        }
    }
}


/// An event kind as a value: identities, URLs and titles by their views.
pub enum EventKindView {
    WorkerOpened(Seq<char>),
    ProfileAttached,
    ProfileDetached,
    NavigationStarted(UrlView),
    NavigationChanged(UrlView, Option<Seq<char>>),
    Loading,
    Ready,
    InputAccepted(InputKind),
    InputResult(InputKind, bool),
    NetworkDenied,
    Error(BrowserError),
    OperationCancelled(u64),
    WorkerClosed,
    WorkerCrashed,
    WorkerTimedOut,
}

pub open spec fn kind_view(k: BrowserEventKind) -> EventKindView {
    match k {
        BrowserEventKind::WorkerOpened { session } => EventKindView::WorkerOpened(session@),
        BrowserEventKind::ProfileAttached => EventKindView::ProfileAttached,
        BrowserEventKind::ProfileDetached => EventKindView::ProfileDetached,
        BrowserEventKind::NavigationStarted { url } => EventKindView::NavigationStarted(url@),
        BrowserEventKind::NavigationChanged { url, title } => EventKindView::NavigationChanged(
            url@,
            match title {
                Some(t) => Some(t@),
                None => None,
            },
        ),
        BrowserEventKind::Loading => EventKindView::Loading,
        BrowserEventKind::Ready => EventKindView::Ready,
        BrowserEventKind::InputAccepted { kind } => EventKindView::InputAccepted(kind),
        BrowserEventKind::InputResult { kind, accepted } => EventKindView::InputResult(kind, accepted),
        BrowserEventKind::NetworkDenied => EventKindView::NetworkDenied,
        BrowserEventKind::Error { code } => EventKindView::Error(code),
        BrowserEventKind::OperationCancelled { operation_id } => EventKindView::OperationCancelled(
            operation_id.0,
        ),
        BrowserEventKind::WorkerClosed => EventKindView::WorkerClosed,
        BrowserEventKind::WorkerCrashed => EventKindView::WorkerCrashed,
        BrowserEventKind::WorkerTimedOut => EventKindView::WorkerTimedOut,
    }
}

pub struct EventView {
    pub version: u16,
    pub sequence: u64,
    pub kind: EventKindView,
}

impl View for BrowserEvent {
    type V = EventView;

    open spec fn view(&self) -> EventView {
        EventView { version: self.version, sequence: self.sequence, kind: kind_view(self.kind) }
    }
}

impl BrowserEventKind {
    /// A copy of the kind.
    pub fn duplicate(&self) -> (r: BrowserEventKind)
        ensures
            kind_view(r) == kind_view(*self),
    {
        match self {
            BrowserEventKind::WorkerOpened { session } => BrowserEventKind::WorkerOpened {
                session: session.duplicate(),
            },
            BrowserEventKind::ProfileAttached => BrowserEventKind::ProfileAttached,
            BrowserEventKind::ProfileDetached => BrowserEventKind::ProfileDetached,
            BrowserEventKind::NavigationStarted { url } => BrowserEventKind::NavigationStarted {
                url: url.duplicate(),
            },
            BrowserEventKind::NavigationChanged { url, title } => BrowserEventKind::NavigationChanged {
                url: url.duplicate(),
                title: match title {
                    Some(t) => Some(t.clone()),
                    None => None,
                },
            },
            BrowserEventKind::Loading => BrowserEventKind::Loading,
            BrowserEventKind::Ready => BrowserEventKind::Ready,
            BrowserEventKind::InputAccepted { kind } => BrowserEventKind::InputAccepted { kind: *kind },
            BrowserEventKind::InputResult { kind, accepted } => BrowserEventKind::InputResult {
                kind: *kind,
                accepted: *accepted,
            },
            BrowserEventKind::NetworkDenied => BrowserEventKind::NetworkDenied,
            BrowserEventKind::Error { code } => BrowserEventKind::Error { code: *code },
            BrowserEventKind::OperationCancelled { operation_id } => BrowserEventKind::OperationCancelled {
                operation_id: *operation_id,
            },
            BrowserEventKind::WorkerClosed => BrowserEventKind::WorkerClosed,
            BrowserEventKind::WorkerCrashed => BrowserEventKind::WorkerCrashed,
            BrowserEventKind::WorkerTimedOut => BrowserEventKind::WorkerTimedOut,
        }
    }
}

impl BrowserEvent {
    /// A copy of the event.
    pub fn duplicate(&self) -> (r: BrowserEvent)
        ensures
            r@ == self@,
    {
        BrowserEvent { version: self.version, sequence: self.sequence, kind: self.kind.duplicate() }
    }

    /// A diagnostic rendering of the event, its kind rendered as above.
    pub fn debug_string(&self) -> (r: String)
        ensures
            r@ == "BrowserEvent { version: "@ + decimal(self.version as nat) + ", sequence: "@
                + decimal(self.sequence as nat) + ", kind: "@ + event_kind_diagnostic(self.kind)
                + " }"@,
    {
        let mut out = String::new();
        push_str(&mut out, "BrowserEvent { version: ");
        let v = decimal_string(self.version as u64);
        push_str(&mut out, v.as_str());
        push_str(&mut out, ", sequence: ");
        let s = decimal_string(self.sequence);
        push_str(&mut out, s.as_str());
        push_str(&mut out, ", kind: ");
        let k = self.kind.debug_string();
        push_str(&mut out, k.as_str());
        push_str(&mut out, " }");
        out
    }
}

} // verus!

verus! {

/// The command line of a headless Chromium worker: no sandbox extras, no
/// background services, remote debugging on the loopback address at `port`,
/// the profile in `profile_dir`, and a blank first page.
pub open spec fn chromium_argv(program: Seq<char>, port: u16, profile_dir: Seq<char>) -> Seq<
    Seq<char>,
> {
    seq![
        program,
        "--headless=new"@,
        "--disable-gpu"@,
        "--disable-dev-shm-usage"@,
        "--no-sandbox"@,
        "--disable-background-networking"@,
        "--disable-component-update"@,
        "--disable-default-apps"@,
        "--disable-extensions"@,
        "--disable-features=Translate,OptimizationHints,MediaRouter"@,
        "--no-first-run"@,
        "--no-default-browser-check"@,
        "--remote-allow-origins=*"@,
        "--remote-debugging-address=127.0.0.1"@,
        "--window-size=1280,720"@,
        "--remote-debugging-port="@ + decimal(port as nat),
        "--user-data-dir="@ + profile_dir,
        "about:blank"@,
    ]
}

/// Builds the Chromium worker's command line as a structured command, one
/// argument per element, with no shell in between.
pub fn chromium_command(program: &str, port: u16, profile_dir: &str) -> (r: StructuredCommand)
    ensures
        r@ == chromium_argv(program@, port, profile_dir@),
{
    let mut port_arg = String::new();
    push_str(&mut port_arg, "--remote-debugging-port=");
    let digits = decimal_string(port as u64);
    push_str(&mut port_arg, digits.as_str());
    let mut dir_arg = String::new();
    push_str(&mut dir_arg, "--user-data-dir=");
    push_str(&mut dir_arg, profile_dir);
    assert(port_arg@ =~= "--remote-debugging-port="@ + decimal(port as nat));
    assert(dir_arg@ =~= "--user-data-dir="@ + profile_dir@);
    let c = StructuredCommand::new(program).arg("--headless=new").arg("--disable-gpu").arg(
        "--disable-dev-shm-usage",
    ).arg("--no-sandbox").arg("--disable-background-networking").arg(
        "--disable-component-update",
    ).arg("--disable-default-apps").arg("--disable-extensions").arg(
        "--disable-features=Translate,OptimizationHints,MediaRouter",
    ).arg("--no-first-run").arg("--no-default-browser-check").arg("--remote-allow-origins=*").arg(
        "--remote-debugging-address=127.0.0.1",
    ).arg("--window-size=1280,720").arg(port_arg.as_str()).arg(dir_arg.as_str()).arg("about:blank");
    assert(c@ =~= chromium_argv(program@, port, profile_dir@));
    c
}

/// A DevTools event as the worker reads it off its connection.
pub enum CdpEvent {
    /// `Fetch.requestPaused`: the paused request's id and the URL it asks
    /// for, where the event carried one.
    RequestPaused { request_id: String, url: Option<String> },
    /// `Page.frameNavigated`: the frame's URL, where the event carried one,
    /// and the page title the worker read for it.
    FrameNavigated { url: Option<String>, title: Option<String> },
    /// `Page.loadEventFired`.
    LoadEventFired,
    /// Any other event.
    Other,
}

/// What the worker sends back over DevTools for an event.
pub enum CdpAction {
    Nothing,
    /// `Fetch.continueRequest` for the request id.
    ContinueRequest(String),
    /// `Fetch.failRequest` with `BlockedByClient` for the request id.
    FailRequest(String),
}

/// The worker's answer to one event: what it sends back, the generic event
/// it reports, and whether the page is ready (`Ok(true)`) or the
/// navigation was denied.
pub struct CdpStep {
    pub action: CdpAction,
    pub event: Option<BrowserEventKind>,
    pub result: Result<bool, BrowserError>,
}

pub open spec fn opt_text(o: Option<String>) -> Option<Seq<char>> {
    match o {
        Some(s) => Some(s@),
        None => None,
    }
}

/// A paused request may go on: it names a URL that parses and that the
/// policy allows with the addresses its host resolved to.
pub open spec fn paused_request_allowed(
    policy: &R008NavigationPolicy,
    url: Option<String>,
    addresses: Seq<SocketAddress>,
) -> bool {
    match url {
        Some(u) => url_parse(u@) is Some && navigation_allowed(
            policy.egress_view(),
            policy.scope_view(),
            url_parse(u@)->0,
            addresses,
        ),
        None => false,
    }
}

/// How the worker answers one DevTools event, given the addresses that the
/// host of a paused request's URL resolved to. A paused request that the
/// policy allows is continued; any other is failed, reported as denied
/// network access, and ends the navigation as denied. A frame navigation to
/// a URL that parses is reported with the page title; a load event reports
/// readiness; anything else does nothing.
pub fn cdp_event_step(event: CdpEvent, policy: &R008NavigationPolicy, addresses: Vec<SocketAddress>) -> (r:
    CdpStep)
    requires
        policy.wf(),
    ensures
        match event {
            CdpEvent::RequestPaused { request_id, url } => if paused_request_allowed(
                policy,
                url,
                addresses@,
            ) {
                &&& r.action matches CdpAction::ContinueRequest(id) && id@ == request_id@
                &&& r.event is None
                &&& r.result == Ok::<bool, BrowserError>(false)
            } else {
                &&& r.action matches CdpAction::FailRequest(id) && id@ == request_id@
                &&& r.event matches Some(k) && kind_view(k) == EventKindView::NetworkDenied
                &&& r.result == Err::<bool, BrowserError>(BrowserError::NavigationDenied)
            },
            CdpEvent::FrameNavigated { url, title } => {
                &&& r.action is Nothing
                &&& r.result == Ok::<bool, BrowserError>(false)
                &&& match url {
                    Some(u) => match url_parse(u@) {
                        Some(parsed) => r.event matches Some(k) && kind_view(k)
                            == EventKindView::NavigationChanged(parsed, opt_text(title)),
                        None => r.event is None,
                    },
                    None => r.event is None,
                }
            },
            CdpEvent::LoadEventFired => {
                &&& r.action is Nothing
                &&& r.event matches Some(k) && kind_view(k) == EventKindView::Ready
                &&& r.result == Ok::<bool, BrowserError>(true)
            },
            CdpEvent::Other => r.action is Nothing && r.event is None && r.result == Ok::<
                bool,
                BrowserError,
            >(false),
        },
{
    match event {
        CdpEvent::RequestPaused { request_id, url } => {
            let parsed = match &url {
                Some(u) => UrlParts::parse(u.as_str()),
                None => None,
            };
            let allowed = match parsed {
                Some(p) => policy.authorize_resolved(&p, addresses).is_ok(),
                None => false,
            };
            if allowed {
                CdpStep {
                    action: CdpAction::ContinueRequest(request_id),
                    event: None,
                    result: Ok(false),
                }
            } else {
                CdpStep {
                    action: CdpAction::FailRequest(request_id),
                    event: Some(BrowserEventKind::NetworkDenied),
                    result: Err(BrowserError::NavigationDenied),
                }
            }
        },
        CdpEvent::FrameNavigated { url, title } => {
            let parsed = match &url {
                Some(u) => UrlParts::parse(u.as_str()),
                None => None,
            };
            let event = match parsed {
                Some(p) => Some(BrowserEventKind::NavigationChanged { url: p, title }),
                None => None,
            };
            CdpStep { action: CdpAction::Nothing, event, result: Ok(false) }
        },
        CdpEvent::LoadEventFired => CdpStep {
            action: CdpAction::Nothing,
            event: Some(BrowserEventKind::Ready),
            result: Ok(true),
        },
        CdpEvent::Other => CdpStep { action: CdpAction::Nothing, event: None, result: Ok(false) },
    }
}

} // verus!
