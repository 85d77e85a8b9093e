//! Generic source-site authentication: the session vault.
//!
//! The vault keeps accounts, stored sessions and the one active account per
//! site. Callers outside trusted server infrastructure only receive
//! references; secret material never leaves the vault through them.

use crate::browser::ProfileAttachmentRef;
use crate::ids::{is_opaque_token, new_opaque_token, now_ms};
use crate::keyed::{
    keyed_map, keys_unique, lemma_keyed_lookup, lemma_keyed_push, lemma_keyed_remove,
    lemma_keyed_update,
};
use crate::playback::str_eq;
use crate::security::{
    CapabilityView, EgressPolicy, EgressPolicyError, EgressScope, SiteAccessCapability,
    SiteAccessError, TargetPlan, UrlParts, UrlView, authorize_outcome, opt_str_ref, plan_outcome,
    secret_header,
};
use crate::text::{decimal, decimal_string, push_str};
use vstd::prelude::*;

verus! {

#[derive(Clone, Copy, Debug, PartialEq, Eq, Structural)]
pub enum AccountState {
    Unknown,
    Checking,
    Valid,
    Expired,
    LoginRequired,
    Error,
}

#[derive(Clone, Debug)]
pub struct SiteSessionRef {
    site_id: String,
    account_ref: String,
    session_id: String,
}

#[derive(Clone, Debug)]
pub struct SiteAccount {
    site_id: String,
    account_ref: String,
    label: String,
    state: AccountState,
    active_session: Option<SiteSessionRef>,
}

/// Secret material is only constructed and consumed by trusted server-side
/// infrastructure. Its diagnostic form never includes field values.
#[derive(Clone)]
pub struct SecretMaterial {
    cookie_header: Option<String>,
    authorization_header: Option<String>,
    local_storage: Option<String>,
    browser_profile: Option<Vec<u8>>,
}

#[derive(Clone, Copy, Debug, PartialEq, Eq, Structural)]
pub enum VaultError {
    InvalidReference,
    AccountNotFound,
    SessionNotFound,
    CandidateNotFound,
    CandidateRejected,
    CandidateCancelled,
    SessionNotActive,
    EmptySecretMaterial,
}

#[derive(Clone, Copy, Debug, PartialEq, Eq, Structural)]
pub enum CandidateValidation {
    Valid,
    Invalid,
}

#[derive(Clone, Copy, Debug, PartialEq, Eq, Structural)]
pub enum CleanupResult {
    NoPreviousSession,
    PreviousSessionRemoved,
}

#[derive(Clone, Debug)]
pub struct SessionSwapResult {
    pub active_session: SiteSessionRef,
    pub replaced_session: Option<SiteSessionRef>,
    pub cleanup: CleanupResult,
}

// ---------------------------------------------------------------------------
// Model
// ---------------------------------------------------------------------------

pub struct RefView {
    pub site_id: Seq<char>,
    pub account_ref: Seq<char>,
    pub session_id: Seq<char>,
}

pub struct AccountView {
    pub site_id: Seq<char>,
    pub account_ref: Seq<char>,
    pub label: Seq<char>,
    pub state: AccountState,
    pub active_session: Option<RefView>,
}

pub struct MaterialView {
    pub cookie_header: Option<Seq<char>>,
    pub authorization_header: Option<Seq<char>>,
    pub local_storage: Option<Seq<char>>,
    pub browser_profile: Option<Seq<u8>>,
}

pub struct StoredView {
    pub reference: RefView,
    pub material: MaterialView,
    pub candidate: bool,
}

pub struct VaultView {
    pub accounts: Map<(Seq<char>, Seq<char>), AccountView>,
    pub sessions: Map<Seq<char>, StoredView>,
    pub active_by_site: Map<Seq<char>, Seq<char>>,
}

impl View for SiteSessionRef {
    type V = RefView;

    closed spec fn view(&self) -> RefView {
        RefView {
            site_id: self.site_id@,
            account_ref: self.account_ref@,
            session_id: self.session_id@,
        }
    }
}

pub open spec fn opt_ref_view(r: Option<SiteSessionRef>) -> Option<RefView> {
    match r {
        Some(r) => Some(r@),
        None => None,
    }
}

impl View for SiteAccount {
    type V = AccountView;

    closed spec fn view(&self) -> AccountView {
        AccountView {
            site_id: self.site_id@,
            account_ref: self.account_ref@,
            label: self.label@,
            state: self.state,
            active_session: opt_ref_view(self.active_session),
        }
    }
}

pub open spec fn opt_str(o: Option<String>) -> Option<Seq<char>> {
    match o {
        Some(s) => Some(s@),
        None => None,
    }
}

impl View for SecretMaterial {
    type V = MaterialView;

    closed spec fn view(&self) -> MaterialView {
        MaterialView {
            cookie_header: opt_str(self.cookie_header),
            authorization_header: opt_str(self.authorization_header),
            local_storage: opt_str(self.local_storage),
            browser_profile: match self.browser_profile {
                Some(v) => Some(v@),
                None => None,
            },
        }
    }
}

pub open spec fn material_is_empty(m: MaterialView) -> bool {
    m.cookie_header is None && m.authorization_header is None && m.local_storage is None
        && m.browser_profile is None
}

/// The diagnostic form of secret material: which fields are present, and the
/// size of a browser profile. No field value appears in it.
pub open spec fn material_diagnostic(m: MaterialView) -> Seq<char> {
    let r = "Some(\"[REDACTED]\")"@;
    let n = "None"@;
    "SecretMaterial { cookie_header: "@ + (if m.cookie_header is Some {
        r
    } else {
        n
    }) + ", authorization_header: "@ + (if m.authorization_header is Some {
        r
    } else {
        n
    }) + ", local_storage: "@ + (if m.local_storage is Some {
        r
    } else {
        n
    }) + ", browser_profile: "@ + (match m.browser_profile {
        Some(p) => "Some("@ + decimal(p.len()) + ")"@,
        None => n,
    }) + " }"@
}

impl SiteSessionRef {
    pub fn site_id(&self) -> (r: &str)
        ensures
            r@ == self@.site_id,
    {
        self.site_id.as_str()
    }

    pub fn account_ref(&self) -> (r: &str)
        ensures
            r@ == self@.account_ref,
    {
        self.account_ref.as_str()
    }

    pub fn session_id(&self) -> (r: &str)
        ensures
            r@ == self@.session_id,
    {
        self.session_id.as_str()
    }

    fn new(site_id: &str, account_ref: &str) -> (r: Self)
        ensures
            r@.site_id == site_id@,
            r@.account_ref == account_ref@,
            is_opaque_token(r@.session_id),
    {
        SiteSessionRef {
            site_id: site_id.to_owned(),
            account_ref: account_ref.to_owned(),
            session_id: new_opaque_token(),
        }
    }

    fn duplicate(&self) -> (r: Self)
        ensures
            r@ == self@,
    {
        SiteSessionRef {
            site_id: self.site_id.clone(),
            account_ref: self.account_ref.clone(),
            session_id: self.session_id.clone(),
        }
    }

    fn same_as(&self, other: &SiteSessionRef) -> (r: bool)
        ensures
            r == (self@ == other@),
    {
        self.site_id.eq(&other.site_id) && self.account_ref.eq(&other.account_ref)
            && self.session_id.eq(&other.session_id)
    }
}

fn opt_ref_duplicate(r: &Option<SiteSessionRef>) -> (o: Option<SiteSessionRef>)
    ensures
        opt_ref_view(o) == opt_ref_view(*r),
{
    match r {
        Some(x) => Some(x.duplicate()),
        None => None,
    }
}

impl SiteAccount {
    pub fn site_id(&self) -> (r: &str)
        ensures
            r@ == self@.site_id,
    {
        self.site_id.as_str()
    }

    pub fn account_ref(&self) -> (r: &str)
        ensures
            r@ == self@.account_ref,
    {
        self.account_ref.as_str()
    }

    pub fn label(&self) -> (r: &str)
        ensures
            r@ == self@.label,
    {
        self.label.as_str()
    }

    pub fn state(&self) -> (r: AccountState)
        ensures
            r == self@.state,
    {
        self.state
    }

    pub fn active_session(&self) -> (r: Option<&SiteSessionRef>)
        ensures
            r is Some == self@.active_session is Some,
            r is Some ==> r->0@ == self@.active_session->0,
    {
        match &self.active_session {
            Some(s) => Some(s),
            None => None,
        }
    }

    fn duplicate(&self) -> (r: Self)
        ensures
            r@ == self@,
    {
        SiteAccount {
            site_id: self.site_id.clone(),
            account_ref: self.account_ref.clone(),
            label: self.label.clone(),
            state: self.state,
            active_session: opt_ref_duplicate(&self.active_session),
        }
    }
}

impl SecretMaterial {
    pub fn new(
        cookie_header: Option<String>,
        authorization_header: Option<String>,
        local_storage: Option<String>,
        browser_profile: Option<Vec<u8>>,
    ) -> (r: Self)
        ensures
            r@ == (MaterialView {
                cookie_header: opt_str(cookie_header),
                authorization_header: opt_str(authorization_header),
                local_storage: opt_str(local_storage),
                browser_profile: match browser_profile {
                    Some(v) => Some(v@),
                    None => None,
                },
            }),
    {
        SecretMaterial { cookie_header, authorization_header, local_storage, browser_profile }
    }

    pub fn is_empty(&self) -> (r: bool)
        ensures
            r == material_is_empty(self@),
    {
        self.cookie_header.is_none() && self.authorization_header.is_none()
            && self.local_storage.is_none() && self.browser_profile.is_none()
    }

    pub fn cookie_header(&self) -> (r: Option<&str>)
        ensures
            r is Some == self@.cookie_header is Some,
            r is Some ==> r->0@ == self@.cookie_header->0,
    {
        match &self.cookie_header {
            Some(s) => Some(s.as_str()),
            None => None,
        }
    }

    pub fn authorization_header(&self) -> (r: Option<&str>)
        ensures
            r is Some == self@.authorization_header is Some,
            r is Some ==> r->0@ == self@.authorization_header->0,
    {
        match &self.authorization_header {
            Some(s) => Some(s.as_str()),
            None => None,
        }
    }

    /// The redacted diagnostic form of the material.
    pub fn debug_string(&self) -> (r: String)
        ensures
            r@ == material_diagnostic(self@),
    {
        let mut out = String::new();
        push_str(&mut out, "SecretMaterial { cookie_header: ");
        push_str(&mut out, if self.cookie_header.is_some() { "Some(\"[REDACTED]\")" } else { "None" });
        push_str(&mut out, ", authorization_header: ");
        push_str(
            &mut out,
            if self.authorization_header.is_some() {
                "Some(\"[REDACTED]\")"
            } else {
                "None"
            },
        );
        push_str(&mut out, ", local_storage: ");
        push_str(&mut out, if self.local_storage.is_some() { "Some(\"[REDACTED]\")" } else { "None" });
        push_str(&mut out, ", browser_profile: ");
        match &self.browser_profile {
            Some(p) => {
                push_str(&mut out, "Some(");
                let digits = decimal_string(p.len() as u64);
                push_str(&mut out, digits.as_str());
                push_str(&mut out, ")");
            },
            None => {
                push_str(&mut out, "None");
            },
        }
        push_str(&mut out, " }");
        proof {
            let m = self@;
            let ghost r = "Some(\"[REDACTED]\")"@;
            assert(out@ =~= material_diagnostic(m));
        }
        out
    }
}

// ---------------------------------------------------------------------------
// The vault
// ---------------------------------------------------------------------------

struct StoredSession {
    reference: SiteSessionRef,
    material: SecretMaterial,
    candidate: bool,
}

struct ActiveEntry {
    site_id: String,
    account_ref: String,
}

spec fn account_key(a: SiteAccount) -> (Seq<char>, Seq<char>) {
    (a@.site_id, a@.account_ref)
}

spec fn account_val(a: SiteAccount) -> AccountView {
    a@
}

spec fn stored_view(s: StoredSession) -> StoredView {
    StoredView { reference: s.reference@, material: s.material@, candidate: s.candidate }
}

spec fn session_key(s: StoredSession) -> Seq<char> {
    s.reference@.session_id
}

spec fn active_key(e: ActiveEntry) -> Seq<char> {
    e.site_id@
}

spec fn active_val(e: ActiveEntry) -> Seq<char> {
    e.account_ref@
}

/// Every account is stored under its own key, and an account that holds an
/// active session is the active account of its site; so a site has at most
/// one account with an active session.
pub open spec fn vault_inv(v: VaultView) -> bool {
    &&& forall|k: (Seq<char>, Seq<char>)| #[trigger]
        v.accounts.contains_key(k) ==> v.accounts[k].site_id == k.0 && v.accounts[k].account_ref
            == k.1
    &&& forall|k: (Seq<char>, Seq<char>)|
        v.accounts.contains_key(k) && (#[trigger] v.accounts[k]).active_session is Some
            ==> v.active_by_site.contains_key(k.0) && v.active_by_site[k.0] == k.1
}

pub struct SwapView {
    pub active_session: RefView,
    pub replaced_session: Option<RefView>,
    pub cleanup: CleanupResult,
}

impl View for SessionSwapResult {
    type V = SwapView;

    open spec fn view(&self) -> SwapView {
        SwapView {
            active_session: self.active_session@,
            replaced_session: opt_ref_view(self.replaced_session),
            cleanup: self.cleanup,
        }
    }
}

pub open spec fn is_stored_candidate(v: VaultView, c: RefView) -> bool {
    v.sessions.contains_key(c.session_id) && v.sessions[c.session_id].candidate
        && v.sessions[c.session_id].reference == c
}

pub open spec fn without_session(
    s: Map<Seq<char>, StoredView>,
    r: Option<RefView>,
) -> Map<Seq<char>, StoredView> {
    match r {
        Some(r) => s.remove(r.session_id),
        None => s,
    }
}

/// Validating a captured candidate: an invalid candidate is discarded and
/// the active session is untouched; a valid one becomes the account's active
/// session in one step, the previous session of the site (of this or of
/// another account) is removed, and another account of the site must log in
/// again.
pub open spec fn swap_outcome(v: VaultView, c: RefView, validation: CandidateValidation) -> (
    VaultView,
    Result<SwapView, VaultError>,
) {
    if !is_stored_candidate(v, c) {
        (v, Err(VaultError::CandidateNotFound))
    } else if validation == CandidateValidation::Invalid {
        (VaultView { sessions: v.sessions.remove(c.session_id), ..v }, Err(VaultError::CandidateRejected))
    } else {
        let key = (c.site_id, c.account_ref);
        let other_key = (c.site_id, v.active_by_site[c.site_id]);
        let switch_account = v.active_by_site.contains_key(c.site_id) && v.active_by_site[c.site_id]
            != c.account_ref && v.accounts.contains_key(other_key);
        let other = if switch_account {
            v.accounts[other_key].active_session
        } else {
            None
        };
        let v1 = if switch_account {
            VaultView {
                accounts: v.accounts.insert(
                    other_key,
                    AccountView {
                        active_session: None,
                        state: AccountState::LoginRequired,
                        ..v.accounts[other_key]
                    },
                ),
                sessions: without_session(v.sessions, other),
                ..v
            }
        } else {
            v
        };
        if !v1.accounts.contains_key(key) {
            (v1, Err(VaultError::AccountNotFound))
        } else {
            let previous = v1.accounts[key].active_session;
            let sessions2 = without_session(v1.sessions, previous);
            let sessions3 = if sessions2.contains_key(c.session_id) {
                sessions2.insert(
                    c.session_id,
                    StoredView { candidate: false, ..sessions2[c.session_id] },
                )
            } else {
                sessions2
            };
            let replaced = if previous is Some {
                previous
            } else {
                other
            };
            (
                VaultView {
                    accounts: v1.accounts.insert(
                        key,
                        AccountView {
                            active_session: Some(c),
                            state: AccountState::Valid,
                            ..v1.accounts[key]
                        },
                    ),
                    sessions: sessions3,
                    active_by_site: v1.active_by_site.insert(c.site_id, c.account_ref),
                },
                Ok(
                    SwapView {
                        active_session: c,
                        replaced_session: replaced,
                        cleanup: if replaced is Some {
                            CleanupResult::PreviousSessionRemoved
                        } else {
                            CleanupResult::NoPreviousSession
                        },
                    },
                ),
            )
        }
    }
}

/// Logging out removes the account's active session and stored material,
/// marks the account as needing a login, and clears the site's active
/// account when it was this one.
pub open spec fn logout_outcome(v: VaultView, site_id: Seq<char>, account_ref: Seq<char>) -> (
    VaultView,
    Result<AccountView, VaultError>,
) {
    let key = (site_id, account_ref);
    if !v.accounts.contains_key(key) {
        (v, Err(VaultError::AccountNotFound))
    } else {
        let a = AccountView {
            active_session: None,
            state: AccountState::LoginRequired,
            ..v.accounts[key]
        };
        let was_active = v.active_by_site.contains_key(site_id) && v.active_by_site[site_id]
            == account_ref;
        (
            VaultView {
                accounts: v.accounts.insert(key, a),
                sessions: without_session(v.sessions, v.accounts[key].active_session),
                active_by_site: if was_active {
                    v.active_by_site.remove(site_id)
                } else {
                    v.active_by_site
                },
            },
            Ok(a),
        )
    }
}

pub open spec fn fixture_material(label: Seq<char>) -> MaterialView {
    MaterialView {
        cookie_header: Some("session-cookie-"@ + label),
        authorization_header: Some("Bearer session-token-"@ + label),
        local_storage: Some("local-storage-"@ + label),
        browser_profile: Some(vstd::utf8::encode_utf8("profile-"@ + label)),
    }
}

pub open spec fn account_result(r: Result<SiteAccount, VaultError>) -> Result<
    AccountView,
    VaultError,
> {
    match r {
        Ok(a) => Ok(a@),
        Err(e) => Err(e),
    }
}

pub open spec fn ref_result(r: Result<SiteSessionRef, VaultError>) -> Result<RefView, VaultError> {
    match r {
        Ok(a) => Ok(a@),
        Err(e) => Err(e),
    }
}

pub open spec fn swap_result(r: Result<SessionSwapResult, VaultError>) -> Result<
    SwapView,
    VaultError,
> {
    match r {
        Ok(a) => Ok(a@),
        Err(e) => Err(e),
    }
}

/// Registering an account: both references must be non-empty and the pair
/// must be new; the account starts in the `Unknown` state without a session.
pub open spec fn register_outcome(
    v: VaultView,
    site_id: Seq<char>,
    account_ref: Seq<char>,
    label: Seq<char>,
) -> (VaultView, Result<AccountView, VaultError>) {
    if site_id.len() == 0 || account_ref.len() == 0 || v.accounts.contains_key(
        (site_id, account_ref),
    ) {
        (v, Err(VaultError::InvalidReference))
    } else {
        let a = AccountView {
            site_id,
            account_ref,
            label,
            state: AccountState::Unknown,
            active_session: None,
        };
        (VaultView { accounts: v.accounts.insert((site_id, account_ref), a), ..v }, Ok(a))
    }
}

/// Setting an account's state changes that field alone.
pub open spec fn state_outcome(
    v: VaultView,
    site_id: Seq<char>,
    account_ref: Seq<char>,
    state: AccountState,
) -> (VaultView, Result<AccountView, VaultError>) {
    let key = (site_id, account_ref);
    if !v.accounts.contains_key(key) {
        (v, Err(VaultError::AccountNotFound))
    } else {
        let a = AccountView { state, ..v.accounts[key] };
        (VaultView { accounts: v.accounts.insert(key, a), ..v }, Ok(a))
    }
}

/// Storing captured secret material as a candidate session of an existing
/// account, under a fresh session reference `r`.
pub open spec fn candidate_stored(
    old_v: VaultView,
    new_v: VaultView,
    site_id: Seq<char>,
    account_ref: Seq<char>,
    material: MaterialView,
    r: Result<RefView, VaultError>,
) -> bool {
    if material_is_empty(material) {
        new_v == old_v && r == Err::<RefView, VaultError>(VaultError::EmptySecretMaterial)
    } else if !old_v.accounts.contains_key((site_id, account_ref)) {
        new_v == old_v && r == Err::<RefView, VaultError>(VaultError::AccountNotFound)
    } else {
        &&& r is Ok
        &&& r->Ok_0.site_id == site_id
        &&& r->Ok_0.account_ref == account_ref
        &&& is_opaque_token(r->Ok_0.session_id)
        &&& new_v == VaultView {
            sessions: old_v.sessions.insert(
                r->Ok_0.session_id,
                StoredView { reference: r->Ok_0, material, candidate: true },
            ),
            ..old_v
        }
    }
}

/// Cancelling a stored candidate discards it; anything else is refused.
pub open spec fn cancel_outcome(v: VaultView, c: RefView) -> (VaultView, Result<(), VaultError>) {
    if is_stored_candidate(v, c) {
        (VaultView { sessions: v.sessions.remove(c.session_id), ..v }, Ok(()))
    } else {
        (v, Err(VaultError::CandidateNotFound))
    }
}

/// The stored material of a session that has been swapped in.
pub open spec fn secret_of(v: VaultView, s: RefView) -> Result<MaterialView, VaultError> {
    if v.sessions.contains_key(s.session_id) && !v.sessions[s.session_id].candidate
        && v.sessions[s.session_id].reference == s {
        Ok(v.sessions[s.session_id].material)
    } else {
        Err(VaultError::SessionNotActive)
    }
}

pub struct SessionVault {
    accounts: Vec<SiteAccount>,
    sessions: Vec<StoredSession>,
    active: Vec<ActiveEntry>,
}

impl View for SessionVault {
    type V = VaultView;

    closed spec fn view(&self) -> VaultView {
        VaultView {
            accounts: keyed_map(
                self.accounts@,
                |a: SiteAccount| account_key(a),
                |a: SiteAccount| account_val(a),
            ),
            sessions: keyed_map(
                self.sessions@,
                |s: StoredSession| session_key(s),
                |s: StoredSession| stored_view(s),
            ),
            active_by_site: keyed_map(
                self.active@,
                |e: ActiveEntry| active_key(e),
                |e: ActiveEntry| active_val(e),
            ),
        }
    }
}

impl SessionVault {
    pub closed spec fn wf(&self) -> bool {
        &&& keys_unique(self.accounts@, |a: SiteAccount| account_key(a))
        &&& keys_unique(self.sessions@, |s: StoredSession| session_key(s))
        &&& keys_unique(self.active@, |e: ActiveEntry| active_key(e))
        &&& vault_inv(self@)
    }

    /// A fresh isolated vault for deterministic tests and local contract
    /// execution.
    pub fn isolated_test() -> (v: Self)
        ensures
            v.wf(),
            v@.accounts == Map::<(Seq<char>, Seq<char>), AccountView>::empty(),
            v@.sessions == Map::<Seq<char>, StoredView>::empty(),
            v@.active_by_site == Map::<Seq<char>, Seq<char>>::empty(),
    {
        let v = SessionVault { accounts: Vec::new(), sessions: Vec::new(), active: Vec::new() };
        assert(v@.accounts =~= Map::<(Seq<char>, Seq<char>), AccountView>::empty());
        assert(v@.sessions =~= Map::<Seq<char>, StoredView>::empty());
        assert(v@.active_by_site =~= Map::<Seq<char>, Seq<char>>::empty());
        v
    }

    fn find_account(&self, site_id: &str, account_ref: &str) -> (r: Option<usize>)
        requires
            keys_unique(self.accounts@, |a: SiteAccount| account_key(a)),
        ensures
            r is None ==> !self@.accounts.contains_key((site_id@, account_ref@)),
            r is Some ==> r->0 < self.accounts@.len() && account_key(self.accounts@[r->0 as int])
                == (site_id@, account_ref@) && self@.accounts.contains_key((site_id@, account_ref@))
                && self@.accounts[(site_id@, account_ref@)] == self.accounts@[r->0 as int]@,
    {
        let mut i: usize = 0;
        while i < self.accounts.len()
            invariant
                i <= self.accounts@.len(),
                keys_unique(self.accounts@, |a: SiteAccount| account_key(a)),
                forall|j: int|
                    0 <= j < i ==> account_key(#[trigger] self.accounts@[j]) != (
                        site_id@,
                        account_ref@,
                    ),
            decreases self.accounts@.len() - i,
        {
            let a = &self.accounts[i];
            if str_eq(a.site_id.as_str(), site_id) && str_eq(a.account_ref.as_str(), account_ref) {
                proof {
                    lemma_keyed_lookup(
                        self.accounts@,
                        |a: SiteAccount| account_key(a),
                        |a: SiteAccount| account_val(a),
                        i as int,
                    );
                }
                return Some(i);
            }
            i = i + 1;
        }
        None
    }

    fn find_session(&self, session_id: &str) -> (r: Option<usize>)
        requires
            keys_unique(self.sessions@, |s: StoredSession| session_key(s)),
        ensures
            r is None ==> !self@.sessions.contains_key(session_id@),
            r is Some ==> r->0 < self.sessions@.len() && session_key(self.sessions@[r->0 as int])
                == session_id@ && self@.sessions.contains_key(session_id@)
                && self@.sessions[session_id@] == stored_view(self.sessions@[r->0 as int]),
    {
        let mut i: usize = 0;
        while i < self.sessions.len()
            invariant
                i <= self.sessions@.len(),
                keys_unique(self.sessions@, |s: StoredSession| session_key(s)),
                forall|j: int| 0 <= j < i ==> session_key(#[trigger] self.sessions@[j]) != session_id@,
            decreases self.sessions@.len() - i,
        {
            if str_eq(self.sessions[i].reference.session_id.as_str(), session_id) {
                proof {
                    lemma_keyed_lookup(
                        self.sessions@,
                        |s: StoredSession| session_key(s),
                        |s: StoredSession| stored_view(s),
                        i as int,
                    );
                }
                return Some(i);
            }
            i = i + 1;
        }
        None
    }

    fn find_active(&self, site_id: &str) -> (r: Option<usize>)
        requires
            keys_unique(self.active@, |e: ActiveEntry| active_key(e)),
        ensures
            r is None ==> !self@.active_by_site.contains_key(site_id@),
            r is Some ==> r->0 < self.active@.len() && active_key(self.active@[r->0 as int])
                == site_id@ && self@.active_by_site.contains_key(site_id@)
                && self@.active_by_site[site_id@] == self.active@[r->0 as int].account_ref@,
    {
        let mut i: usize = 0;
        while i < self.active.len()
            invariant
                i <= self.active@.len(),
                keys_unique(self.active@, |e: ActiveEntry| active_key(e)),
                forall|j: int| 0 <= j < i ==> active_key(#[trigger] self.active@[j]) != site_id@,
            decreases self.active@.len() - i,
        {
            if str_eq(self.active[i].site_id.as_str(), site_id) {
                proof {
                    lemma_keyed_lookup(
                        self.active@,
                        |e: ActiveEntry| active_key(e),
                        |e: ActiveEntry| active_val(e),
                        i as int,
                    );
                }
                return Some(i);
            }
            i = i + 1;
        }
        None
    }
}

proof fn lemma_account_update_keeps_inv(v: VaultView, key: (Seq<char>, Seq<char>), a: AccountView)
    requires
        vault_inv(v),
        a.site_id == key.0,
        a.account_ref == key.1,
        a.active_session is Some ==> v.active_by_site.contains_key(key.0)
            && v.active_by_site[key.0] == key.1,
    ensures
        vault_inv(VaultView { accounts: v.accounts.insert(key, a), ..v }),
{
    let w = VaultView { accounts: v.accounts.insert(key, a), ..v };
    assert forall|k: (Seq<char>, Seq<char>)| #[trigger]
        w.accounts.contains_key(k) implies w.accounts[k].site_id == k.0
        && w.accounts[k].account_ref == k.1 by {
        if k != key {
            assert(v.accounts.contains_key(k));
        }
    }
    assert forall|k: (Seq<char>, Seq<char>)|
        w.accounts.contains_key(k) && (#[trigger] w.accounts[k]).active_session is Some implies w.active_by_site.contains_key(
        k.0) && w.active_by_site[k.0] == k.1 by {
        if k != key {
            assert(v.accounts.contains_key(k) && v.accounts[k].active_session is Some);
        }
    }
}

/// Every outcome of validating a candidate keeps the vault's invariant.
pub proof fn lemma_swap_keeps_inv(v: VaultView, c: RefView, validation: CandidateValidation)
    requires
        vault_inv(v),
    ensures
        vault_inv(swap_outcome(v, c, validation).0),
{
    if is_stored_candidate(v, c) && validation == CandidateValidation::Valid {
        let key = (c.site_id, c.account_ref);
        let other_key = (c.site_id, v.active_by_site[c.site_id]);
        let switch_account = v.active_by_site.contains_key(c.site_id) && v.active_by_site[c.site_id]
            != c.account_ref && v.accounts.contains_key(other_key);
        let other = if switch_account {
            v.accounts[other_key].active_session
        } else {
            None
        };
        let v1 = if switch_account {
            VaultView {
                accounts: v.accounts.insert(
                    other_key,
                    AccountView {
                        active_session: None,
                        state: AccountState::LoginRequired,
                        ..v.accounts[other_key]
                    },
                ),
                sessions: without_session(v.sessions, other),
                ..v
            }
        } else {
            v
        };
        if switch_account {
            lemma_account_update_keeps_inv(
                v,
                other_key,
                AccountView {
                    active_session: None,
                    state: AccountState::LoginRequired,
                    ..v.accounts[other_key]
                },
            );
            assert(vault_inv(VaultView { sessions: without_session(v.sessions, other), ..v1 }));
        }
        assert(vault_inv(v1));
        if v1.accounts.contains_key(key) {
            let a = AccountView {
                active_session: Some(c),
                state: AccountState::Valid,
                ..v1.accounts[key]
            };
            let w = swap_outcome(v, c, validation).0;
            assert(w.accounts == v1.accounts.insert(key, a));
            assert(w.active_by_site == v1.active_by_site.insert(c.site_id, c.account_ref));
            assert forall|k: (Seq<char>, Seq<char>)| #[trigger]
                w.accounts.contains_key(k) implies w.accounts[k].site_id == k.0
                && w.accounts[k].account_ref == k.1 by {
                if k != key {
                    assert(v1.accounts.contains_key(k));
                }
            }
            assert forall|k: (Seq<char>, Seq<char>)|
                w.accounts.contains_key(k) && (#[trigger] w.accounts[k]).active_session
                    is Some implies w.active_by_site.contains_key(k.0) && w.active_by_site[k.0]
                == k.1 by {
                if k != key {
                    assert(v1.accounts.contains_key(k) && v1.accounts[k].active_session is Some);
                    assert(v1.active_by_site.contains_key(k.0) && v1.active_by_site[k.0] == k.1);
                    if k.0 == c.site_id {
                        assert(k.1 != c.account_ref);
                        if switch_account {
                            assert(k == other_key);
                        } else {
                            assert(v.active_by_site.contains_key(c.site_id));
                            assert(v.accounts.contains_key(k));
                            assert(k == other_key);
                        }
                    }
                }
            }
        }
    }
}

/// Every outcome of a logout keeps the vault's invariant.
pub proof fn lemma_logout_keeps_inv(v: VaultView, site_id: Seq<char>, account_ref: Seq<char>)
    requires
        vault_inv(v),
    ensures
        vault_inv(logout_outcome(v, site_id, account_ref).0),
{
    let key = (site_id, account_ref);
    if v.accounts.contains_key(key) {
        let w = logout_outcome(v, site_id, account_ref).0;
        assert forall|k: (Seq<char>, Seq<char>)| #[trigger]
            w.accounts.contains_key(k) implies w.accounts[k].site_id == k.0
            && w.accounts[k].account_ref == k.1 by {
            if k != key {
                assert(v.accounts.contains_key(k));
            }
        }
        assert forall|k: (Seq<char>, Seq<char>)|
            w.accounts.contains_key(k) && (#[trigger] w.accounts[k]).active_session
                is Some implies w.active_by_site.contains_key(k.0) && w.active_by_site[k.0]
            == k.1 by {
            assert(k != key);
            assert(v.accounts.contains_key(k) && v.accounts[k].active_session is Some);
            if k.0 == site_id {
                assert(v.active_by_site[site_id] == k.1);
            }
        }
    }
}

fn opt_string_duplicate(o: &Option<String>) -> (r: Option<String>)
    ensures
        opt_str(r) == opt_str(*o),
{
    match o {
        Some(s) => Some(s.clone()),
        None => None,
    }
}

impl SecretMaterial {
    fn duplicate(&self) -> (r: Self)
        ensures
            r@ == self@,
    {
        SecretMaterial {
            cookie_header: opt_string_duplicate(&self.cookie_header),
            authorization_header: opt_string_duplicate(&self.authorization_header),
            local_storage: opt_string_duplicate(&self.local_storage),
            browser_profile: match &self.browser_profile {
                Some(p) => Some(vstd::slice::slice_to_vec(p.as_slice())),
                None => None,
            },
        }
    }
}

impl SessionVault {
    closed spec fn keys_ok(&self) -> bool {
        &&& keys_unique(self.accounts@, |a: SiteAccount| account_key(a))
        &&& keys_unique(self.sessions@, |s: StoredSession| session_key(s))
        &&& keys_unique(self.active@, |e: ActiveEntry| active_key(e))
    }

    proof fn lemma_wf_keys(&self)
        requires
            self.wf(),
        ensures
            self.keys_ok(),
            vault_inv(self@),
    {
    }

    /// Removes the stored session with the given id, if any.
    fn remove_session(&mut self, session_id: &str)
        requires
            old(self).keys_ok(),
        ensures
            final(self).keys_ok(),
            final(self)@ == (VaultView { sessions: old(self)@.sessions.remove(session_id@), ..old(self)@ }),
    {
        match self.find_session(session_id) {
            Some(i) => {
                proof {
                    lemma_keyed_remove(
                        self.sessions@,
                        |s: StoredSession| session_key(s),
                        |s: StoredSession| stored_view(s),
                        i as int,
                    );
                }
                self.sessions.remove(i);
            },
            None => {
                assert(self@.sessions.remove(session_id@) =~= self@.sessions);
            },
        }
        assert(self@.accounts == old(self)@.accounts);
    }

    /// Makes the given account the active account of its site.
    fn set_active(&mut self, site_id: &str, account_ref: &str)
        requires
            old(self).keys_ok(),
        ensures
            final(self).keys_ok(),
            final(self)@ == (VaultView {
                active_by_site: old(self)@.active_by_site.insert(site_id@, account_ref@),
                ..old(self)@
            }),
    {
        let e = ActiveEntry { site_id: site_id.to_owned(), account_ref: account_ref.to_owned() };
        match self.find_active(site_id) {
            Some(i) => {
                proof {
                    lemma_keyed_update(
                        self.active@,
                        |e: ActiveEntry| active_key(e),
                        |e: ActiveEntry| active_val(e),
                        i as int,
                        e,
                    );
                }
                self.active.set(i, e);
            },
            None => {
                proof {
                    lemma_keyed_push(
                        self.active@,
                        |e: ActiveEntry| active_key(e),
                        |e: ActiveEntry| active_val(e),
                        e,
                    );
                }
                self.active.push(e);
            },
        }
    }

    /// Replaces the account at position `i` by one with the same key.
    fn put_account(&mut self, i: usize, a: SiteAccount)
        requires
            old(self).keys_ok(),
            i < old(self).accounts@.len(),
            account_key(a) == account_key(old(self).accounts@[i as int]),
        ensures
            final(self).keys_ok(),
            final(self).accounts@ == old(self).accounts@.update(i as int, a),
            final(self)@ == (VaultView {
                accounts: old(self)@.accounts.insert(account_key(a), a@),
                ..old(self)@
            }),
    {
        proof {
            lemma_keyed_update(
                self.accounts@,
                |a: SiteAccount| account_key(a),
                |a: SiteAccount| account_val(a),
                i as int,
                a,
            );
        }
        self.accounts.set(i, a);
    }

    pub fn register_account(&mut self, site_id: &str, account_ref: &str, label: &str) -> (r:
        Result<SiteAccount, VaultError>)
        requires
            old(self).wf(),
        ensures
            final(self).wf(),
            (final(self)@, account_result(r)) == register_outcome(
                old(self)@,
                site_id@,
                account_ref@,
                label@,
            ),
            vault_step(
                old(self)@,
                VaultOp::Register { site_id: site_id@, account_ref: account_ref@, label: label@ },
                final(self)@,
            ),
    {
        if site_id.is_empty() || account_ref.is_empty() {
            return Err(VaultError::InvalidReference);
        }
        if self.find_account(site_id, account_ref).is_some() {
            return Err(VaultError::InvalidReference);
        }
        let account = SiteAccount {
            site_id: site_id.to_owned(),
            account_ref: account_ref.to_owned(),
            label: label.to_owned(),
            state: AccountState::Unknown,
            active_session: None,
        };
        let result = account.duplicate();
        proof {
            lemma_keyed_push(
                self.accounts@,
                |a: SiteAccount| account_key(a),
                |a: SiteAccount| account_val(a),
                account,
            );
            lemma_account_update_keeps_inv(self@, (site_id@, account_ref@), account@);
        }
        self.accounts.push(account);
        Ok(result)
    }

    pub fn account(&self, site_id: &str, account_ref: &str) -> (r: Result<SiteAccount, VaultError>)
        requires
            self.wf(),
        ensures
            self@.accounts.contains_key((site_id@, account_ref@)) ==> r is Ok && r->Ok_0@
                == self@.accounts[(site_id@, account_ref@)],
            !self@.accounts.contains_key((site_id@, account_ref@)) ==> r == Err::<
                SiteAccount,
                VaultError,
            >(VaultError::AccountNotFound),
    {
        match self.find_account(site_id, account_ref) {
            Some(i) => Ok(self.accounts[i].duplicate()),
            None => Err(VaultError::AccountNotFound),
        }
    }

    pub fn set_account_state(&mut self, site_id: &str, account_ref: &str, state: AccountState) -> (r:
        Result<SiteAccount, VaultError>)
        requires
            old(self).wf(),
        ensures
            final(self).wf(),
            (final(self)@, account_result(r)) == state_outcome(
                old(self)@,
                site_id@,
                account_ref@,
                state,
            ),
            vault_step(
                old(self)@,
                VaultOp::SetState { site_id: site_id@, account_ref: account_ref@, state },
                final(self)@,
            ),
    {
        match self.find_account(site_id, account_ref) {
            Some(i) => {
                let mut a = self.accounts[i].duplicate();
                a.state = state;
                let result = a.duplicate();
                proof {
                    lemma_account_update_keeps_inv(self@, (site_id@, account_ref@), a@);
                }
                self.put_account(i, a);
                Ok(result)
            },
            None => Err(VaultError::AccountNotFound),
        }
    }

    pub fn mark_expired(&mut self, site_id: &str, account_ref: &str) -> (r: Result<
        SiteAccount,
        VaultError,
    >)
        requires
            old(self).wf(),
        ensures
            final(self).wf(),
            (final(self)@, account_result(r)) == state_outcome(
                old(self)@,
                site_id@,
                account_ref@,
                AccountState::Expired,
            ),
            vault_step(
                old(self)@,
                VaultOp::SetState {
                    site_id: site_id@,
                    account_ref: account_ref@,
                    state: AccountState::Expired,
                },
                final(self)@,
            ),
    {
        self.set_account_state(site_id, account_ref, AccountState::Expired)
    }

    pub fn active_session(&self, site_id: &str, account_ref: &str) -> (r: Result<
        Option<SiteSessionRef>,
        VaultError,
    >)
        requires
            self.wf(),
        ensures
            self@.accounts.contains_key((site_id@, account_ref@)) ==> r is Ok && opt_ref_view(
                r->Ok_0,
            ) == self@.accounts[(site_id@, account_ref@)].active_session,
            !self@.accounts.contains_key((site_id@, account_ref@)) ==> r == Err::<
                Option<SiteSessionRef>,
                VaultError,
            >(VaultError::AccountNotFound),
    {
        match self.find_account(site_id, account_ref) {
            Some(i) => Ok(opt_ref_duplicate(&self.accounts[i].active_session)),
            None => Err(VaultError::AccountNotFound),
        }
    }

    /// Stores secret material as a candidate session of an existing account.
    pub fn create_candidate_session(
        &mut self,
        site_id: &str,
        account_ref: &str,
        material: SecretMaterial,
    ) -> (r: Result<SiteSessionRef, VaultError>)
        requires
            old(self).wf(),
        ensures
            final(self).wf(),
            candidate_stored(
                old(self)@,
                final(self)@,
                site_id@,
                account_ref@,
                material@,
                ref_result(r),
            ),
            vault_step(
                old(self)@,
                VaultOp::StoreCandidate {
                    site_id: site_id@,
                    account_ref: account_ref@,
                    material: material@,
                    result: ref_result(r),
                },
                final(self)@,
            ),
    {
        if material.is_empty() {
            return Err(VaultError::EmptySecretMaterial);
        }
        if self.find_account(site_id, account_ref).is_none() {
            return Err(VaultError::AccountNotFound);
        }
        let reference = SiteSessionRef::new(site_id, account_ref);
        let ghost m = material@;
        let stored = StoredSession { reference: reference.duplicate(), material, candidate: true };
        match self.find_session(reference.session_id()) {
            Some(i) => {
                proof {
                    lemma_keyed_update(
                        self.sessions@,
                        |s: StoredSession| session_key(s),
                        |s: StoredSession| stored_view(s),
                        i as int,
                        stored,
                    );
                }
                self.sessions.set(i, stored);
            },
            None => {
                proof {
                    lemma_keyed_push(
                        self.sessions@,
                        |s: StoredSession| session_key(s),
                        |s: StoredSession| stored_view(s),
                        stored,
                    );
                }
                self.sessions.push(stored);
            },
        }
        Ok(reference)
    }

    /// Stores deterministic fixture material as a candidate session, for
    /// contract tests; no raw secret goes in or out through it.
    pub fn create_fixture_candidate_session(
        &mut self,
        site_id: &str,
        account_ref: &str,
        fixture_label: &str,
    ) -> (r: Result<SiteSessionRef, VaultError>)
        requires
            old(self).wf(),
        ensures
            final(self).wf(),
            candidate_stored(
                old(self)@,
                final(self)@,
                site_id@,
                account_ref@,
                fixture_material(fixture_label@),
                ref_result(r),
            ),
            vault_step(
                old(self)@,
                VaultOp::StoreCandidate {
                    site_id: site_id@,
                    account_ref: account_ref@,
                    material: fixture_material(fixture_label@),
                    result: ref_result(r),
                },
                final(self)@,
            ),
    {
        let mut cookie = String::new();
        push_str(&mut cookie, "session-cookie-");
        push_str(&mut cookie, fixture_label);
        let mut authorization = String::new();
        push_str(&mut authorization, "Bearer session-token-");
        push_str(&mut authorization, fixture_label);
        let mut storage = String::new();
        push_str(&mut storage, "local-storage-");
        push_str(&mut storage, fixture_label);
        let mut profile = String::new();
        push_str(&mut profile, "profile-");
        push_str(&mut profile, fixture_label);
        let profile_bytes = vstd::slice::slice_to_vec(profile.as_str().as_bytes());
        let material = SecretMaterial::new(
            Some(cookie),
            Some(authorization),
            Some(storage),
            Some(profile_bytes),
        );
        assert(material@ == fixture_material(fixture_label@));
        self.create_candidate_session(site_id, account_ref, material)
    }
}

impl SessionVault {
    /// Clears the candidate mark of the stored session with the given id,
    /// if it is stored.
    fn mark_swapped_in(&mut self, session_id: &str)
        requires
            old(self).keys_ok(),
        ensures
            final(self).keys_ok(),
            final(self)@ == (VaultView {
                sessions: if old(self)@.sessions.contains_key(session_id@) {
                    old(self)@.sessions.insert(
                        session_id@,
                        StoredView { candidate: false, ..old(self)@.sessions[session_id@] },
                    )
                } else {
                    old(self)@.sessions
                },
                ..old(self)@
            }),
    {
        match self.find_session(session_id) {
            Some(i) => {
                let old_entry = &self.sessions[i];
                let entry = StoredSession {
                    reference: old_entry.reference.duplicate(),
                    material: old_entry.material.duplicate(),
                    candidate: false,
                };
                proof {
                    lemma_keyed_update(
                        self.sessions@,
                        |s: StoredSession| session_key(s),
                        |s: StoredSession| stored_view(s),
                        i as int,
                        entry,
                    );
                }
                self.sessions.set(i, entry);
            },
            None => {},
        }
    }

    /// Validates a captured candidate. An invalid candidate is discarded and
    /// leaves the active session alone; a valid one is swapped in atomically
    /// and the site's previous session is removed.
    pub fn validate_and_swap(&mut self, candidate: &SiteSessionRef, validation: CandidateValidation) -> (r:
        Result<SessionSwapResult, VaultError>)
        requires
            old(self).wf(),
        ensures
            final(self).wf(),
            (final(self)@, swap_result(r)) == swap_outcome(old(self)@, candidate@, validation),
            vault_step(
                old(self)@,
                VaultOp::Swap { candidate: candidate@, validation },
                final(self)@,
            ),
    {
        let ghost v0 = self@;
        let ghost c = candidate@;
        proof {
            lemma_swap_keeps_inv(v0, c, validation);
        }
        let idx = match self.find_session(candidate.session_id()) {
            Some(i) => i,
            None => {
                return Err(VaultError::CandidateNotFound);
            },
        };
        if !self.sessions[idx].candidate || !self.sessions[idx].reference.same_as(candidate) {
            return Err(VaultError::CandidateNotFound);
        }
        assert(is_stored_candidate(v0, c));
        if validation == CandidateValidation::Invalid {
            proof {
                lemma_keyed_remove(
                    self.sessions@,
                    |s: StoredSession| session_key(s),
                    |s: StoredSession| stored_view(s),
                    idx as int,
                );
            }
            self.sessions.remove(idx);
            return Err(VaultError::CandidateRejected);
        }
        let ghost other_key = (c.site_id, v0.active_by_site[c.site_id]);
        let ghost switch_account = v0.active_by_site.contains_key(c.site_id)
            && v0.active_by_site[c.site_id] != c.account_ref && v0.accounts.contains_key(other_key);
        let mut other: Option<SiteSessionRef> = None;
        match self.find_active(candidate.site_id()) {
            Some(ai) => {
                if !str_eq(self.active[ai].account_ref.as_str(), candidate.account_ref()) {
                    let other_account = self.active[ai].account_ref.clone();
                    match self.find_account(candidate.site_id(), other_account.as_str()) {
                        Some(oi) => {
                            let mut a = self.accounts[oi].duplicate();
                            other = opt_ref_duplicate(&a.active_session);
                            a.active_session = None;
                            a.state = AccountState::LoginRequired;
                            self.put_account(oi, a);
                            match &other {
                                Some(o) => {
                                    self.remove_session(o.session_id());
                                },
                                None => {},
                            }
                        },
                        None => {},
                    }
                }
            },
            None => {},
        }
        assert(opt_ref_view(other) == (if switch_account {
            v0.accounts[other_key].active_session
        } else {
            None
        }));
        let ghost v1 = self@;
        let ki = match self.find_account(candidate.site_id(), candidate.account_ref()) {
            Some(k) => k,
            None => {
                return Err(VaultError::AccountNotFound);
            },
        };
        let mut a = self.accounts[ki].duplicate();
        let previous = opt_ref_duplicate(&a.active_session);
        a.active_session = Some(candidate.duplicate());
        a.state = AccountState::Valid;
        self.put_account(ki, a);
        self.set_active(candidate.site_id(), candidate.account_ref());
        match &previous {
            Some(p) => {
                self.remove_session(p.session_id());
            },
            None => {},
        }
        self.mark_swapped_in(candidate.session_id());
        let replaced = match previous {
            Some(p) => Some(p),
            None => other,
        };
        let cleanup = if replaced.is_some() {
            CleanupResult::PreviousSessionRemoved
        } else {
            CleanupResult::NoPreviousSession
        };
        let result = SessionSwapResult {
            active_session: candidate.duplicate(),
            replaced_session: replaced,
            cleanup,
        };
        assert(self@ == swap_outcome(v0, c, validation).0);
        Ok(result)
    }

    /// Discards a stored candidate.
    pub fn cancel_candidate(&mut self, candidate: &SiteSessionRef) -> (r: Result<(), VaultError>)
        requires
            old(self).wf(),
        ensures
            final(self).wf(),
            (final(self)@, r) == cancel_outcome(old(self)@, candidate@),
            vault_step(old(self)@, VaultOp::Cancel { candidate: candidate@ }, final(self)@),
    {
        let idx = match self.find_session(candidate.session_id()) {
            Some(i) => i,
            None => {
                return Err(VaultError::CandidateNotFound);
            },
        };
        if !self.sessions[idx].candidate || !self.sessions[idx].reference.same_as(candidate) {
            return Err(VaultError::CandidateNotFound);
        }
        proof {
            lemma_keyed_remove(
                self.sessions@,
                |s: StoredSession| session_key(s),
                |s: StoredSession| stored_view(s),
                idx as int,
            );
        }
        self.sessions.remove(idx);
        Ok(())
    }

    /// Logs an account out: its active session and stored material go.
    pub fn logout(&mut self, site_id: &str, account_ref: &str) -> (r: Result<SiteAccount, VaultError>)
        requires
            old(self).wf(),
        ensures
            final(self).wf(),
            (final(self)@, account_result(r)) == logout_outcome(old(self)@, site_id@, account_ref@),
            vault_step(
                old(self)@,
                VaultOp::Logout { site_id: site_id@, account_ref: account_ref@ },
                final(self)@,
            ),
    {
        let ghost v0 = self@;
        proof {
            lemma_logout_keeps_inv(v0, site_id@, account_ref@);
        }
        let ki = match self.find_account(site_id, account_ref) {
            Some(k) => k,
            None => {
                return Err(VaultError::AccountNotFound);
            },
        };
        let mut a = self.accounts[ki].duplicate();
        let active = opt_ref_duplicate(&a.active_session);
        a.active_session = None;
        a.state = AccountState::LoginRequired;
        let result = a.duplicate();
        self.put_account(ki, a);
        match &active {
            Some(s) => {
                self.remove_session(s.session_id());
            },
            None => {},
        }
        match self.find_active(site_id) {
            Some(ai) => {
                if str_eq(self.active[ai].account_ref.as_str(), account_ref) {
                    proof {
                        lemma_keyed_remove(
                            self.active@,
                            |e: ActiveEntry| active_key(e),
                            |e: ActiveEntry| active_val(e),
                            ai as int,
                        );
                    }
                    self.active.remove(ai);
                }
            },
            None => {},
        }
        assert(self@ == logout_outcome(v0, site_id@, account_ref@).0);
        Ok(result)
    }

    /// The secret material of a swapped-in session, for trusted server-side
    /// use only.
    pub fn read_secret(&self, session: &SiteSessionRef) -> (r: Result<SecretMaterial, VaultError>)
        requires
            self.wf(),
        ensures
            match r {
                Ok(m) => secret_of(self@, session@) == Ok::<MaterialView, VaultError>(m@),
                Err(e) => secret_of(self@, session@) == Err::<MaterialView, VaultError>(e),
            },
    {
        match self.find_session(session.session_id()) {
            Some(i) => {
                let stored = &self.sessions[i];
                if !stored.candidate && stored.reference.same_as(session) {
                    Ok(stored.material.duplicate())
                } else {
                    Err(VaultError::SessionNotActive)
                }
            },
            None => Err(VaultError::SessionNotActive),
        }
    }

    /// Whether the vault stores this session, candidate or not.
    pub fn has_session(&self, session: &SiteSessionRef) -> (r: bool)
        requires
            self.wf(),
        ensures
            r == (self@.sessions.contains_key(session@.session_id)
                && self@.sessions[session@.session_id].reference == session@),
    {
        match self.find_session(session.session_id()) {
            Some(i) => self.sessions[i].reference.same_as(session),
            None => false,
        }
    }
}

/// A site has at most one account with an active session: two accounts of
/// one site that both hold an active session are the same account. Every
/// operation of the vault keeps this (each ensures `wf`).
pub proof fn law_one_active_account_per_site(
    vault: &SessionVault,
    k1: (Seq<char>, Seq<char>),
    k2: (Seq<char>, Seq<char>),
)
    requires
        vault.wf(),
        vault@.accounts.contains_key(k1),
        vault@.accounts.contains_key(k2),
        vault@.accounts[k1].active_session is Some,
        vault@.accounts[k2].active_session is Some,
        k1.0 == k2.0,
    ensures
        k1 == k2,
{
    vault.lemma_wf_keys();
}

/// An invalid candidate is discarded and nothing else changes: accounts,
/// their active sessions and every other stored session stay as they were.
pub proof fn law_invalid_candidate_preserves_active_session(v: VaultView, c: RefView)
    requires
        is_stored_candidate(v, c),
    ensures
        swap_outcome(v, c, CandidateValidation::Invalid).1 == Err::<SwapView, VaultError>(
            VaultError::CandidateRejected,
        ),
        swap_outcome(v, c, CandidateValidation::Invalid).0.accounts == v.accounts,
        swap_outcome(v, c, CandidateValidation::Invalid).0.active_by_site == v.active_by_site,
        swap_outcome(v, c, CandidateValidation::Invalid).0.sessions == v.sessions.remove(
            c.session_id,
        ),
{
}

/// A valid candidate becomes, in one step, the account's active session and
/// the site's active account; reading its secret then gives back the
/// material that was stored with it, and the session it replaced is gone.
pub proof fn law_valid_swap_reads_back_candidate(v: VaultView, c: RefView)
    requires
        vault_inv(v),
        is_stored_candidate(v, c),
        v.accounts.contains_key((c.site_id, c.account_ref)),
        v.accounts[(c.site_id, c.account_ref)].active_session is Some ==> v.accounts[(
            c.site_id,
            c.account_ref,
        )].active_session->0.session_id != c.session_id,
        v.active_by_site.contains_key(c.site_id) && v.accounts.contains_key(
            (c.site_id, v.active_by_site[c.site_id]),
        ) && v.accounts[(c.site_id, v.active_by_site[c.site_id])].active_session is Some
            ==> v.accounts[(c.site_id, v.active_by_site[c.site_id])].active_session->0.session_id
            != c.session_id,
    ensures
        ({
            let (w, r) = swap_outcome(v, c, CandidateValidation::Valid);
            &&& r is Ok
            &&& r->Ok_0.active_session == c
            &&& w.accounts[(c.site_id, c.account_ref)].active_session == Some(c)
            &&& w.accounts[(c.site_id, c.account_ref)].state == AccountState::Valid
            &&& w.active_by_site[c.site_id] == c.account_ref
            &&& secret_of(w, c) == Ok::<MaterialView, VaultError>(
                v.sessions[c.session_id].material,
            )
            &&& (r->Ok_0.replaced_session is Some ==> !w.sessions.contains_key(
                r->Ok_0.replaced_session->0.session_id,
            ))
            &&& (r->Ok_0.cleanup == CleanupResult::PreviousSessionRemoved
                <==> r->Ok_0.replaced_session is Some)
        }),
{
}

/// After a logout the account holds no session, must log in again, and the
/// material of its former session can no longer be read.
pub proof fn law_logout_forgets_session(v: VaultView, site_id: Seq<char>, account_ref: Seq<char>)
    requires
        v.accounts.contains_key((site_id, account_ref)),
    ensures
        ({
            let (w, r) = logout_outcome(v, site_id, account_ref);
            let former = v.accounts[(site_id, account_ref)].active_session;
            &&& r is Ok
            &&& w.accounts[(site_id, account_ref)].active_session is None
            &&& w.accounts[(site_id, account_ref)].state == AccountState::LoginRequired
            &&& (former is Some ==> secret_of(w, former->0) == Err::<MaterialView, VaultError>(
                VaultError::SessionNotActive,
            ))
        }),
{
}

/// Cancelling a candidate removes that candidate and nothing else.
pub proof fn law_cancel_removes_only_candidate(v: VaultView, c: RefView)
    requires
        is_stored_candidate(v, c),
    ensures
        cancel_outcome(v, c).1 is Ok,
        cancel_outcome(v, c).0.accounts == v.accounts,
        cancel_outcome(v, c).0.active_by_site == v.active_by_site,
        cancel_outcome(v, c).0.sessions == v.sessions.remove(c.session_id),
        !cancel_outcome(v, c).0.sessions.contains_key(c.session_id),
{
}

/// The vault holds session `s`, candidate or not: what `has_session`
/// answers.
pub open spec fn holds_session(v: VaultView, s: RefView) -> bool {
    v.sessions.contains_key(s.session_id) && v.sessions[s.session_id].reference == s
}

/// Which sessions the vault holds across its operations: registering an
/// account and setting its state change none; storing a candidate adds it
/// and leaves every other session id as it was; cancelling or rejecting a
/// candidate drops that candidate only; logging out drops the account's
/// active session only.
pub proof fn law_held_sessions_across_operations(
    v: VaultView,
    w: VaultView,
    s: RefView,
    c: RefView,
    site_id: Seq<char>,
    account_ref: Seq<char>,
    label: Seq<char>,
    state: AccountState,
    material: MaterialView,
    stored: Result<RefView, VaultError>,
)
    requires
        vault_inv(v),
    ensures
        holds_session(register_outcome(v, site_id, account_ref, label).0, s) == holds_session(v, s),
        holds_session(state_outcome(v, site_id, account_ref, state).0, s) == holds_session(v, s),
        holds_session(cancel_outcome(v, c).0, s) == (holds_session(v, s) && !(is_stored_candidate(
            v,
            c,
        ) && s.session_id == c.session_id)),
        holds_session(swap_outcome(v, c, CandidateValidation::Invalid).0, s) == (holds_session(v, s)
            && !(is_stored_candidate(v, c) && s.session_id == c.session_id)),
        holds_session(logout_outcome(v, site_id, account_ref).0, s) == (holds_session(v, s) && !(
        v.accounts.contains_key((site_id, account_ref)) && v.accounts[(
            site_id,
            account_ref,
        )].active_session is Some && v.accounts[(site_id, account_ref)].active_session->0.session_id
            == s.session_id)),
        candidate_stored(v, w, site_id, account_ref, material, stored) && stored is Ok ==> holds_session(
            w,
            stored->Ok_0,
        ) && (s.session_id != stored->Ok_0.session_id ==> holds_session(w, s) == holds_session(v, s)),
{
}

/// One operation of the vault that changes it, with the values it was
/// called with; a candidate creation also carries the reference it gave
/// back.
pub enum VaultOp {
    Register { site_id: Seq<char>, account_ref: Seq<char>, label: Seq<char> },
    SetState { site_id: Seq<char>, account_ref: Seq<char>, state: AccountState },
    StoreCandidate {
        site_id: Seq<char>,
        account_ref: Seq<char>,
        material: MaterialView,
        result: Result<RefView, VaultError>,
    },
    Swap { candidate: RefView, validation: CandidateValidation },
    Cancel { candidate: RefView },
    Logout { site_id: Seq<char>, account_ref: Seq<char> },
}

/// `w` is what operation `op` makes of vault `v`, as the contract of the
/// method that performs it states.
pub open spec fn vault_step(v: VaultView, op: VaultOp, w: VaultView) -> bool {
    match op {
        VaultOp::Register { site_id, account_ref, label } => w == register_outcome(
            v,
            site_id,
            account_ref,
            label,
        ).0,
        VaultOp::SetState { site_id, account_ref, state } => w == state_outcome(
            v,
            site_id,
            account_ref,
            state,
        ).0,
        VaultOp::StoreCandidate { site_id, account_ref, material, result } => candidate_stored(
            v,
            w,
            site_id,
            account_ref,
            material,
            result,
        ),
        VaultOp::Swap { candidate, validation } => w == swap_outcome(v, candidate, validation).0,
        VaultOp::Cancel { candidate } => w == cancel_outcome(v, candidate).0,
        VaultOp::Logout { site_id, account_ref } => w == logout_outcome(v, site_id, account_ref).0,
    }
}

/// `states` are the vaults before and after each of `ops`, in order.
pub open spec fn vault_trace(states: Seq<VaultView>, ops: Seq<VaultOp>) -> bool {
    &&& states.len() == ops.len() + 1
    &&& forall|i: int| #![trigger ops[i]] 0 <= i < ops.len() ==> vault_step(states[i], ops[i], states[i + 1])
}

/// The session ids that a valid swap of candidate `c` replaces: the active
/// session of the site's other active account, and the previous active
/// session of `c`'s own account.
pub open spec fn swap_replaced(v: VaultView, c: RefView, id: Seq<char>) -> bool {
    let key = (c.site_id, c.account_ref);
    let other_key = (c.site_id, v.active_by_site[c.site_id]);
    let switch_account = v.active_by_site.contains_key(c.site_id) && v.active_by_site[c.site_id]
        != c.account_ref && v.accounts.contains_key(other_key);
    ||| switch_account && v.accounts[other_key].active_session is Some
        && v.accounts[other_key].active_session->0.session_id == id
    ||| v.accounts.contains_key(key) && v.accounts[key].active_session is Some
        && v.accounts[key].active_session->0.session_id == id
}

/// Operation `op` stores session `r`: a candidate creation that gave `r`
/// back.
pub open spec fn op_stores_session(op: VaultOp, r: RefView) -> bool {
    op matches VaultOp::StoreCandidate { result, .. } && result == Ok::<RefView, VaultError>(r)
}

/// Operation `op` on vault `v` drops session `r`: cancelling it or
/// rejecting it as a candidate, a valid swap that replaces it, a logout of
/// the account it is active for, or another candidate stored under its id.
pub open spec fn op_drops_session(v: VaultView, op: VaultOp, r: RefView) -> bool {
    match op {
        VaultOp::Register { .. } => false,
        VaultOp::SetState { .. } => false,
        VaultOp::StoreCandidate { result, .. } => result is Ok && result->Ok_0.session_id
            == r.session_id && result->Ok_0 != r,
        VaultOp::Swap { candidate, validation } => is_stored_candidate(v, candidate) && (if validation
            == CandidateValidation::Invalid {
            candidate.session_id == r.session_id
        } else {
            swap_replaced(v, candidate, r.session_id)
        }),
        VaultOp::Cancel { candidate } => is_stored_candidate(v, candidate) && candidate.session_id
            == r.session_id,
        VaultOp::Logout { site_id, account_ref } => v.accounts.contains_key((site_id, account_ref))
            && v.accounts[(site_id, account_ref)].active_session is Some && v.accounts[(
            site_id,
            account_ref,
        )].active_session->0.session_id == r.session_id,
    }
}

/// One operation: the vault holds `r` afterwards exactly when the operation
/// stored `r`, or the vault held `r` before and the operation did not drop
/// it.
pub proof fn lemma_vault_step_holds(v: VaultView, op: VaultOp, w: VaultView, r: RefView)
    requires
        vault_step(v, op, w),
    ensures
        holds_session(w, r) == (op_stores_session(op, r) || (holds_session(v, r)
            && !op_drops_session(v, op, r))),
{
    match op {
        VaultOp::Swap { candidate, validation } => {
            let c = candidate;
            if is_stored_candidate(v, c) && validation == CandidateValidation::Valid {
                let key = (c.site_id, c.account_ref);
                let other_key = (c.site_id, v.active_by_site[c.site_id]);
                let switch_account = v.active_by_site.contains_key(c.site_id)
                    && v.active_by_site[c.site_id] != c.account_ref && v.accounts.contains_key(
                    other_key,
                );
                if switch_account {
                    assert(other_key != key);
                }
            }
        },
        _ => {},
    }
}

/// A session stays available from the call that stored it until it is
/// cancelled, rejected, replaced or logged out: after any sequence of vault
/// operations the vault holds `r` exactly when `r` was held at the start or
/// stored by one of the operations, and no operation after that dropped it.
pub proof fn law_session_held_until_dropped(states: Seq<VaultView>, ops: Seq<VaultOp>, r: RefView)
    requires
        vault_trace(states, ops),
    ensures
        holds_session(states.last(), r) == ((holds_session(states[0], r) && forall|j: int|
            0 <= j < ops.len() ==> !#[trigger] op_drops_session(states[j], ops[j], r)) || exists|
            i: int,
        |
            0 <= i < ops.len() && #[trigger] op_stores_session(ops[i], r) && forall|j: int|
                i < j < ops.len() ==> !#[trigger] op_drops_session(states[j], ops[j], r)),
    decreases ops.len(),
{
    let n = ops.len();
    if n > 0 {
        let m = n - 1;
        let s2 = states.take(n as int);
        let o2 = ops.take(m as int);
        assert forall|i: int| #![trigger o2[i]] 0 <= i < o2.len() implies vault_step(
            s2[i],
            o2[i],
            s2[i + 1],
        ) by {
            assert(vault_step(states[i], ops[i], states[i + 1]));
        }
        law_session_held_until_dropped(s2, o2, r);
        assert(s2.last() == states[m]);
        assert(vault_step(states[m], ops[m], states[n as int]));
        lemma_vault_step_holds(states[m], ops[m], states[n as int], r);
        let a_all = holds_session(states[0], r) && forall|j: int|
            0 <= j < n ==> !#[trigger] op_drops_session(states[j], ops[j], r);
        let a_pre = holds_session(s2[0], r) && forall|j: int|
            0 <= j < o2.len() ==> !#[trigger] op_drops_session(s2[j], o2[j], r);
        let b_all = exists|i: int|
            0 <= i < n && #[trigger] op_stores_session(ops[i], r) && forall|j: int|
                i < j < n ==> !#[trigger] op_drops_session(states[j], ops[j], r);
        let b_pre = exists|i: int|
            0 <= i < o2.len() && #[trigger] op_stores_session(o2[i], r) && forall|j: int|
                i < j < o2.len() ==> !#[trigger] op_drops_session(s2[j], o2[j], r);
        let d = op_drops_session(states[m], ops[m], r);
        let st = op_stores_session(ops[m], r);
        assert(s2[0] == states[0]);
        // a_all == a_pre && !d
        if a_pre && !d {
            assert forall|j: int| 0 <= j < n implies !#[trigger] op_drops_session(
                states[j],
                ops[j],
                r,
            ) by {
                if j < m {
                    assert(s2[j] == states[j] && o2[j] == ops[j]);
                    assert(!op_drops_session(s2[j], o2[j], r));
                }
            }
        }
        if a_all {
            assert(!op_drops_session(states[m], ops[m], r));
            assert forall|j: int| 0 <= j < o2.len() implies !#[trigger] op_drops_session(
                s2[j],
                o2[j],
                r,
            ) by {
                assert(s2[j] == states[j] && o2[j] == ops[j]);
                assert(!op_drops_session(states[j], ops[j], r));
            }
        }
        // b_all == (b_pre && !d) || st
        if b_pre && !d {
            let i = choose|i: int|
                0 <= i < o2.len() && #[trigger] op_stores_session(o2[i], r) && forall|j: int|
                    i < j < o2.len() ==> !#[trigger] op_drops_session(s2[j], o2[j], r);
            assert(o2[i] == ops[i]);
            assert forall|j: int| i < j < n implies !#[trigger] op_drops_session(
                states[j],
                ops[j],
                r,
            ) by {
                if j < m {
                    assert(s2[j] == states[j] && o2[j] == ops[j]);
                    assert(!op_drops_session(s2[j], o2[j], r));
                }
            }
            assert(op_stores_session(ops[i], r));
        }
        if st {
            assert(op_stores_session(ops[m], r));
        }
        if b_all && !st {
            let i = choose|i: int|
                0 <= i < n && #[trigger] op_stores_session(ops[i], r) && forall|j: int|
                    i < j < n ==> !#[trigger] op_drops_session(states[j], ops[j], r);
            assert(i != m);
            assert(!op_drops_session(states[m], ops[m], r));
            assert(o2[i] == ops[i]);
            assert forall|j: int| i < j < o2.len() implies !#[trigger] op_drops_session(
                s2[j],
                o2[j],
                r,
            ) by {
                assert(s2[j] == states[j] && o2[j] == ops[j]);
                assert(!op_drops_session(states[j], ops[j], r));
            }
            assert(op_stores_session(o2[i], r));
            assert(b_pre);
        }
    }
}

impl SessionVault {
    /// Issues an opaque browser-profile attachment reference for a
    /// swapped-in session. Browser workers consume such a reference but
    /// cannot issue one or read the profile behind it.
    pub fn issue_profile_attachment_ref(&self, session: &SiteSessionRef) -> (r: Result<
        ProfileAttachmentRef,
        VaultError,
    >)
        requires
            self.wf(),
        ensures
            secret_of(self@, session@) is Ok ==> r is Ok && is_opaque_token(r->Ok_0@),
            secret_of(self@, session@) is Err ==> r == Err::<ProfileAttachmentRef, VaultError>(
                VaultError::SessionNotActive,
            ),
    {
        let active = match self.find_session(session.session_id()) {
            Some(i) => !self.sessions[i].candidate && self.sessions[i].reference.same_as(session),
            None => false,
        };
        if !active {
            return Err(VaultError::SessionNotActive);
        }
        let token = new_opaque_token();
        Ok(ProfileAttachmentRef::from_vault_issued(token.as_str()))
    }
}

/// An independent server-side request context: the site (and account) a
/// request is made for, with an opaque id. It is issued apart from any
/// presented capability, so a caller cannot self-attest the expected site.
pub struct SiteAccessContext {
    site_id: String,
    account_ref: Option<String>,
    context_id: String,
}

pub struct AccessContextView {
    pub site_id: Seq<char>,
    pub account_ref: Option<Seq<char>>,
    pub context_id: Seq<char>,
}

impl View for SiteAccessContext {
    type V = AccessContextView;

    closed spec fn view(&self) -> AccessContextView {
        AccessContextView {
            site_id: self.site_id@,
            account_ref: opt_str(self.account_ref),
            context_id: self.context_id@,
        }
    }
}

impl SiteAccessContext {
    pub fn issue(site_id: &str, account_ref: Option<String>) -> (r: Self)
        ensures
            r@.site_id == site_id@,
            r@.account_ref == opt_str(account_ref),
            is_opaque_token(r@.context_id),
    {
        SiteAccessContext { site_id: site_id.to_owned(), account_ref, context_id: new_opaque_token() }
    }

    pub fn site_id(&self) -> (r: &str)
        ensures
            r@ == self@.site_id,
    {
        self.site_id.as_str()
    }

    pub fn account_ref(&self) -> (r: Option<&str>)
        ensures
            r is Some == self@.account_ref is Some,
            r is Some ==> r->0@ == self@.account_ref->0,
    {
        match &self.account_ref {
            Some(a) => Some(a.as_str()),
            None => None,
        }
    }

    pub fn context_id(&self) -> (r: &str)
        ensures
            r@ == self@.context_id,
    {
        self.context_id.as_str()
    }
}

/// A site plugin's reference to a playable source: which plugin understands
/// it, in which locator format version, and an opaque payload.
#[derive(Clone, Debug, PartialEq, Eq)]
pub struct SourceLocator {
    pub site_id: String,
    pub plugin_id: String,
    pub locator_version: u32,
    pub opaque_payload: String,
}

/// The retry copy of a source locator kept with a pending intent.
#[derive(Clone, Debug, PartialEq, Eq)]
pub struct PendingSourceLocator {
    pub site_id: String,
    pub plugin_id: String,
    pub locator_version: u32,
    pub opaque_payload: String,
}

pub struct LocatorView {
    pub site_id: Seq<char>,
    pub plugin_id: Seq<char>,
    pub locator_version: u32,
    pub opaque_payload: Seq<char>,
}

impl View for SourceLocator {
    type V = LocatorView;

    open spec fn view(&self) -> LocatorView {
        LocatorView {
            site_id: self.site_id@,
            plugin_id: self.plugin_id@,
            locator_version: self.locator_version,
            opaque_payload: self.opaque_payload@,
        }
    }
}

impl View for PendingSourceLocator {
    type V = LocatorView;

    open spec fn view(&self) -> LocatorView {
        LocatorView {
            site_id: self.site_id@,
            plugin_id: self.plugin_id@,
            locator_version: self.locator_version,
            opaque_payload: self.opaque_payload@,
        }
    }
}

impl PendingSourceLocator {
    pub fn from_locator(locator: &SourceLocator) -> (r: Self)
        ensures
            r@ == locator@,
    {
        PendingSourceLocator {
            site_id: locator.site_id.clone(),
            plugin_id: locator.plugin_id.clone(),
            locator_version: locator.locator_version,
            opaque_payload: locator.opaque_payload.clone(),
        }
    }

    pub fn to_locator(&self) -> (r: SourceLocator)
        ensures
            r@ == self@,
    {
        SourceLocator {
            site_id: self.site_id.clone(),
            plugin_id: self.plugin_id.clone(),
            locator_version: self.locator_version,
            opaque_payload: self.opaque_payload.clone(),
        }
    }
}

#[derive(Clone, Copy, Debug, PartialEq, Eq, Structural)]
pub enum PendingPlaybackAction {
    Play,
    Resume,
    Handoff,
}

/// A playback request kept while the site needs authentication, so it can be
/// retried afterwards.
#[derive(Clone, Debug, PartialEq, Eq)]
pub struct PendingIntent {
    pub intent_id: String,
    pub site_id: String,
    pub source_locator: PendingSourceLocator,
    pub display_ref: Option<String>,
    pub action: PendingPlaybackAction,
    pub expected_session_revision: Option<u64>,
    pub created_at_ms: u64,
}

impl PendingIntent {
    /// An intent for `locator` created at `created_at_ms`.
    pub fn new_at(
        intent_id: &str,
        locator: &SourceLocator,
        display_ref: Option<String>,
        action: PendingPlaybackAction,
        expected_session_revision: Option<u64>,
        created_at_ms: u64,
    ) -> (r: Self)
        ensures
            r.intent_id@ == intent_id@,
            r.site_id@ == locator.site_id@,
            r.source_locator@ == locator@,
            opt_str(r.display_ref) == opt_str(display_ref),
            r.action == action,
            r.expected_session_revision == expected_session_revision,
            r.created_at_ms == created_at_ms,
    {
        PendingIntent {
            intent_id: intent_id.to_owned(),
            site_id: locator.site_id.clone(),
            source_locator: PendingSourceLocator::from_locator(locator),
            display_ref,
            action,
            expected_session_revision,
            created_at_ms,
        }
    }

    /// An intent for `locator` created now.
    pub fn new(
        intent_id: &str,
        locator: &SourceLocator,
        display_ref: Option<String>,
        action: PendingPlaybackAction,
        expected_session_revision: Option<u64>,
    ) -> (r: Self)
        ensures
            r.intent_id@ == intent_id@,
            r.site_id@ == locator.site_id@,
            r.source_locator@ == locator@,
            opt_str(r.display_ref) == opt_str(display_ref),
            r.action == action,
            r.expected_session_revision == expected_session_revision,
    {
        Self::new_at(
            intent_id,
            locator,
            display_ref,
            action,
            expected_session_revision,
            now_ms(),
        )
    }

    pub fn to_source_locator(&self) -> (r: SourceLocator)
        ensures
            r@ == self.source_locator@,
    {
        self.source_locator.to_locator()
    }
}

// ---------------------------------------------------------------------------
// Capability authorization and the scoped site HTTP client
// ---------------------------------------------------------------------------

#[derive(Clone, Copy, Debug, PartialEq, Eq, Structural)]
pub enum AuthBoundaryError {
    Capability(SiteAccessError),
    Vault(VaultError),
    Egress(EgressPolicyError),
    MissingLocation,
    InvalidRedirect,
    TooManyRedirects,
    Transport,
    ResponseBody,
}

pub open spec fn auth_error_label(e: AuthBoundaryError) -> Seq<char> {
    match e {
        AuthBoundaryError::Capability(_) => "capability rejected"@,
        AuthBoundaryError::Vault(_) => "vault access rejected"@,
        AuthBoundaryError::Egress(_) => "egress rejected"@,
        AuthBoundaryError::MissingLocation => "redirect missing location"@,
        AuthBoundaryError::InvalidRedirect => "redirect rejected"@,
        AuthBoundaryError::TooManyRedirects => "too many redirects"@,
        AuthBoundaryError::Transport => "upstream transport failed"@,
        AuthBoundaryError::ResponseBody => "upstream response body failed"@,
    }
}

impl AuthBoundaryError {
    /// The display text of the error: a generic label, never a detail.
    pub fn label(&self) -> (r: &'static str)
        ensures
            r@ == auth_error_label(*self),
    {
        match self {
            AuthBoundaryError::Capability(_) => "capability rejected",
            AuthBoundaryError::Vault(_) => "vault access rejected",
            AuthBoundaryError::Egress(_) => "egress rejected",
            AuthBoundaryError::MissingLocation => "redirect missing location",
            AuthBoundaryError::InvalidRedirect => "redirect rejected",
            AuthBoundaryError::TooManyRedirects => "too many redirects",
            AuthBoundaryError::Transport => "upstream transport failed",
            AuthBoundaryError::ResponseBody => "upstream response body failed",
        }
    }
}

/// A capability presented for a request admits it only for the session it
/// is bound to, while that session is the valid, active session of the
/// site's active account.
pub open spec fn capability_outcome(
    v: VaultView,
    c: CapabilityView,
    now_ms: u64,
    site_id: Seq<char>,
    account_ref: Option<Seq<char>>,
    url: UrlView,
) -> Result<RefView, AuthBoundaryError> {
    match authorize_outcome(c, now_ms, site_id, account_ref, url) {
        Err(e) => Err(AuthBoundaryError::Capability(e)),
        Ok(_) => if c.session_id is None {
            Err(AuthBoundaryError::Capability(SiteAccessError::SessionNotBound))
        } else {
            let sid = c.session_id->0;
            if !v.sessions.contains_key(sid) || v.sessions[sid].candidate {
                Err(AuthBoundaryError::Capability(SiteAccessError::StaleSession))
            } else {
                let r = v.sessions[sid].reference;
                let key = (r.site_id, r.account_ref);
                if !v.accounts.contains_key(key) {
                    Err(AuthBoundaryError::Vault(VaultError::AccountNotFound))
                } else if v.accounts[key].state != AccountState::Valid {
                    Err(AuthBoundaryError::Capability(SiteAccessError::SessionExpired))
                } else if v.accounts[key].active_session != Some(r) || !(v.active_by_site.contains_key(
                    site_id,
                ) && v.active_by_site[site_id] == r.account_ref) {
                    Err(AuthBoundaryError::Capability(SiteAccessError::StaleSession))
                } else {
                    Ok(r)
                }
            }
        },
    }
}

pub open spec fn boundary_ref_result(r: Result<SiteSessionRef, AuthBoundaryError>) -> Result<
    RefView,
    AuthBoundaryError,
> {
    match r {
        Ok(a) => Ok(a@),
        Err(e) => Err(e),
    }
}

impl SessionVault {
    /// Checks a presented capability at time `now_ms`, and gives the vault
    /// session it may use.
    pub fn authorize_capability_at(
        &self,
        now_ms: u64,
        capability: &SiteAccessCapability,
        site_id: &str,
        account_ref: Option<&str>,
        url: &UrlParts,
    ) -> (r: Result<SiteSessionRef, AuthBoundaryError>)
        requires
            self.wf(),
        ensures
            boundary_ref_result(r) == capability_outcome(
                self@,
                capability@,
                now_ms,
                site_id@,
                opt_str_ref(account_ref),
                url@,
            ),
    {
        match capability.authorize_for_account_at(now_ms, site_id, account_ref, url) {
            Err(e) => {
                return Err(AuthBoundaryError::Capability(e));
            },
            Ok(_) => {},
        }
        let session = match capability.session_id() {
            Some(s) => s,
            None => {
                return Err(AuthBoundaryError::Capability(SiteAccessError::SessionNotBound));
            },
        };
        let si = match self.find_session(session) {
            Some(i) => i,
            None => {
                return Err(AuthBoundaryError::Capability(SiteAccessError::StaleSession));
            },
        };
        let stored = &self.sessions[si];
        if stored.candidate {
            return Err(AuthBoundaryError::Capability(SiteAccessError::StaleSession));
        }
        let ai = match self.find_account(
            stored.reference.site_id.as_str(),
            stored.reference.account_ref.as_str(),
        ) {
            Some(i) => i,
            None => {
                return Err(AuthBoundaryError::Vault(VaultError::AccountNotFound));
            },
        };
        let account = &self.accounts[ai];
        if account.state != AccountState::Valid {
            return Err(AuthBoundaryError::Capability(SiteAccessError::SessionExpired));
        }
        let is_active_session = match &account.active_session {
            Some(a) => a.same_as(&stored.reference),
            None => false,
        };
        let is_active_account = match self.find_active(site_id) {
            Some(i) => str_eq(self.active[i].account_ref.as_str(), stored.reference.account_ref.as_str()),
            None => false,
        };
        if !is_active_session || !is_active_account {
            return Err(AuthBoundaryError::Capability(SiteAccessError::StaleSession));
        }
        Ok(stored.reference.duplicate())
    }

    /// Checks a presented capability now.
    pub fn authorize_capability(
        &self,
        capability: &SiteAccessCapability,
        site_id: &str,
        account_ref: Option<&str>,
        url: &UrlParts,
    ) -> (r: Result<SiteSessionRef, AuthBoundaryError>)
        requires
            self.wf(),
        ensures
            exists|now: u64|
                boundary_ref_result(r) == #[trigger] capability_outcome(
                    self@,
                    capability@,
                    now,
                    site_id@,
                    opt_str_ref(account_ref),
                    url@,
                ),
    {
        let now = now_ms();
        self.authorize_capability_at(now, capability, site_id, account_ref, url)
    }
}

impl SessionVault {
    /// Each stored session is kept under its own session id.
    pub proof fn lemma_sessions_keyed(&self)
        requires
            self.wf(),
        ensures
            forall|k: Seq<char>| #[trigger]
                self@.sessions.contains_key(k) ==> self@.sessions[k].reference.session_id == k,
    {
        assert forall|k: Seq<char>| #[trigger]
            self@.sessions.contains_key(k) implies self@.sessions[k].reference.session_id == k by {
            let i = choose|i: int|
                0 <= i < self.sessions@.len() && #[trigger] session_key(self.sessions@[i]) == k;
            lemma_keyed_lookup(
                self.sessions@,
                |s: StoredSession| session_key(s),
                |s: StoredSession| stored_view(s),
                i,
            );
        }
    }
}

/// A request that a capability admits uses the session that the capability
/// is bound to, and that session is the valid, active session of the active
/// account of the requested site; its secret can be read.
pub proof fn law_authorized_session_is_active(
    vault: &SessionVault,
    c: CapabilityView,
    now_ms: u64,
    site_id: Seq<char>,
    account_ref: Option<Seq<char>>,
    url: UrlView,
)
    requires
        vault.wf(),
        capability_outcome(vault@, c, now_ms, site_id, account_ref, url) is Ok,
    ensures
        ({
            let v = vault@;
            let r = capability_outcome(v, c, now_ms, site_id, account_ref, url)->Ok_0;
            &&& c.session_id == Some(r.session_id)
            &&& secret_of(v, r) is Ok
            &&& v.accounts[(r.site_id, r.account_ref)].state == AccountState::Valid
            &&& v.accounts[(r.site_id, r.account_ref)].active_session == Some(r)
            &&& v.active_by_site[site_id] == r.account_ref
        }),
{
    vault.lemma_sessions_keyed();
    let sid = c.session_id->0;
    assert(vault@.sessions.contains_key(sid));
}

/// The redirects a scoped request follows at most.
pub const MAX_REDIRECTS: u32 = 5;

/// The transport timeout of one scoped request hop, in milliseconds.
pub const SCOPED_REQUEST_TIMEOUT_MS: u64 = 15000;

/// A server-owned HTTP client for one site access context. Its caller
/// supplies a method and a URL only: credentials come from the vault after
/// the capability and the central egress policy admit the target, and every
/// redirect repeats both checks.
pub struct ScopedSiteHttpClient {
    egress: EgressPolicy,
    scope: EgressScope,
    context: SiteAccessContext,
}

/// The credentials a hop sends, read from the vault.
pub struct HopCredentials {
    pub cookie: Option<String>,
    pub authorization: Option<String>,
}

/// What follows a response.
pub enum HopOutcome {
    Finish,
    Follow(UrlParts),
    Fail(AuthBoundaryError),
}

/// A hop's checks before name resolution: the capability against the
/// vault, then the egress plan of the target.
pub open spec fn begin_hop_outcome(
    v: VaultView,
    egress: Map<Seq<char>, crate::security::ServiceView>,
    scope: EgressScope,
    ctx: AccessContextView,
    c: CapabilityView,
    now_ms: u64,
    url: UrlView,
) -> Result<(RefView, crate::security::PlanView), AuthBoundaryError> {
    match capability_outcome(v, c, now_ms, ctx.site_id, ctx.account_ref, url) {
        Err(e) => Err(e),
        Ok(s) => match plan_outcome(egress, url, scope) {
            Err(e) => Err(AuthBoundaryError::Egress(e)),
            Ok(p) => Ok((s, p)),
        },
    }
}

/// After a response: a non-redirect finishes; a redirect past the limit,
/// without a readable `Location`, or whose `Location` does not resolve
/// against the current URL fails; any other redirect is followed.
pub open spec fn after_response_outcome(
    redirect_count: u32,
    current: UrlView,
    redirected: bool,
    location: Option<Seq<char>>,
) -> Option<Result<UrlView, AuthBoundaryError>> {
    if !redirected {
        None
    } else if redirect_count >= MAX_REDIRECTS {
        Some(Err(AuthBoundaryError::TooManyRedirects))
    } else {
        match location {
            None => Some(Err(AuthBoundaryError::MissingLocation)),
            Some(l) => match crate::security::join_outcome(current, l) {
                Some(u) => Some(Ok(u)),
                None => Some(Err(AuthBoundaryError::InvalidRedirect)),
            },
        }
    }
}

pub open spec fn hop_outcome_view(h: HopOutcome) -> Option<Result<UrlView, AuthBoundaryError>> {
    match h {
        HopOutcome::Finish => None,
        HopOutcome::Follow(u) => Some(Ok(u@)),
        HopOutcome::Fail(e) => Some(Err(e)),
    }
}

impl ScopedSiteHttpClient {
    pub closed spec fn egress_view(&self) -> Map<Seq<char>, crate::security::ServiceView> {
        self.egress@
    }

    pub closed spec fn scope_view(&self) -> EgressScope {
        self.scope
    }

    pub closed spec fn context_view(&self) -> AccessContextView {
        self.context@
    }

    pub closed spec fn wf(&self) -> bool {
        self.egress.wf()
    }

    pub fn new(egress: EgressPolicy, scope: EgressScope, context: SiteAccessContext) -> (r: Self)
        requires
            egress.wf(),
        ensures
            r.wf(),
            r.egress_view() == egress@,
            r.scope_view() == scope,
            r.context_view() == context@,
    {
        ScopedSiteHttpClient { egress, scope, context }
    }

    /// The checks of one hop before name resolution, at time `now_ms`.
    pub fn begin_hop_at(
        &self,
        vault: &SessionVault,
        capability: &SiteAccessCapability,
        url: &UrlParts,
        now_ms: u64,
    ) -> (r: Result<(SiteSessionRef, TargetPlan), AuthBoundaryError>)
        requires
            self.wf(),
            vault.wf(),
        ensures
            match r {
                Ok((s, p)) => begin_hop_outcome(
                    vault@,
                    self.egress_view(),
                    self.scope_view(),
                    self.context_view(),
                    capability@,
                    now_ms,
                    url@,
                ) == Ok::<(RefView, crate::security::PlanView), AuthBoundaryError>(
                    (s@, crate::security::PlanView { host: p.host@, port: p.port, require_public: p.require_public }),
                ),
                Err(e) => begin_hop_outcome(
                    vault@,
                    self.egress_view(),
                    self.scope_view(),
                    self.context_view(),
                    capability@,
                    now_ms,
                    url@,
                ) == Err::<(RefView, crate::security::PlanView), AuthBoundaryError>(e),
            },
    {
        let session = match vault.authorize_capability_at(
            now_ms,
            capability,
            self.context.site_id(),
            self.context.account_ref(),
            url,
        ) {
            Ok(s) => s,
            Err(e) => {
                return Err(e);
            },
        };
        match self.egress.plan_target(url, &self.scope) {
            Ok(p) => Ok((session, p)),
            Err(e) => Err(AuthBoundaryError::Egress(e)),
        }
    }

    /// The checks of one hop before name resolution, now.
    pub fn begin_hop(&self, vault: &SessionVault, capability: &SiteAccessCapability, url: &UrlParts) -> (r:
        Result<(SiteSessionRef, TargetPlan), AuthBoundaryError>)
        requires
            self.wf(),
            vault.wf(),
        ensures
            r is Err ==> exists|now: u64|
                #[trigger] begin_hop_outcome(
                    vault@,
                    self.egress_view(),
                    self.scope_view(),
                    self.context_view(),
                    capability@,
                    now,
                    url@,
                ) == Err::<(RefView, crate::security::PlanView), AuthBoundaryError>(r->Err_0),
            r is Ok ==> exists|now: u64|
                #[trigger] begin_hop_outcome(
                    vault@,
                    self.egress_view(),
                    self.scope_view(),
                    self.context_view(),
                    capability@,
                    now,
                    url@,
                ) == Ok::<(RefView, crate::security::PlanView), AuthBoundaryError>(
                    (r->Ok_0.0@, crate::security::PlanView {
                        host: r->Ok_0.1.host@,
                        port: r->Ok_0.1.port,
                        require_public: r->Ok_0.1.require_public,
                    }),
                ),
    {
        let now = now_ms();
        self.begin_hop_at(vault, capability, url, now)
    }

    /// The credentials of an admitted hop: the cookie and authorization
    /// headers of the session's stored material.
    pub fn hop_credentials(vault: &SessionVault, session: &SiteSessionRef) -> (r: Result<
        HopCredentials,
        AuthBoundaryError,
    >)
        requires
            vault.wf(),
        ensures
            match r {
                Ok(c) => secret_of(vault@, session@) is Ok && opt_str(c.cookie) == secret_of(
                    vault@,
                    session@,
                )->Ok_0.cookie_header && opt_str(c.authorization) == secret_of(
                    vault@,
                    session@,
                )->Ok_0.authorization_header,
                Err(e) => secret_of(vault@, session@) is Err && e == AuthBoundaryError::Vault(
                    secret_of(vault@, session@)->Err_0,
                ),
            },
    {
        match vault.read_secret(session) {
            Ok(m) => {
                let cookie = match m.cookie_header() {
                    Some(c) => Some(c.to_owned()),
                    None => None,
                };
                let authorization = match m.authorization_header() {
                    Some(a) => Some(a.to_owned()),
                    None => None,
                };
                Ok(HopCredentials { cookie, authorization })
            },
            Err(e) => Err(AuthBoundaryError::Vault(e)),
        }
    }

    /// What follows a response, after `redirect_count` redirects so far.
    pub fn after_response(
        redirect_count: u32,
        current: &UrlParts,
        redirected: bool,
        location: Option<&str>,
    ) -> (r: HopOutcome)
        ensures
            hop_outcome_view(r) == after_response_outcome(
                redirect_count,
                current@,
                redirected,
                opt_str_ref(location),
            ),
    {
        if !redirected {
            return HopOutcome::Finish;
        }
        if redirect_count >= MAX_REDIRECTS {
            return HopOutcome::Fail(AuthBoundaryError::TooManyRedirects);
        }
        match location {
            None => HopOutcome::Fail(AuthBoundaryError::MissingLocation),
            Some(l) => match current.join(l) {
                Some(u) => HopOutcome::Follow(u),
                None => HopOutcome::Fail(AuthBoundaryError::InvalidRedirect),
            },
        }
    }
}

/// Which response headers may be passed on: none that carries credentials
/// (`set-cookie` among them), by name or by a bearer or basic value.
pub fn safe_response_header_mask(headers: &Vec<(String, String)>) -> (r: Vec<bool>)
    ensures
        r@.len() == headers@.len(),
        forall|i: int|
            0 <= i < headers@.len() ==> #[trigger] r@[i] == !(headers@[i].0@ == "set-cookie"@
                || secret_header(headers@[i].0@, headers@[i].1@)),
{
    let mut out: Vec<bool> = Vec::new();
    let mut i: usize = 0;
    while i < headers.len()
        invariant
            i <= headers@.len(),
            out@.len() == i,
            forall|j: int|
                0 <= j < i ==> #[trigger] out@[j] == !(headers@[j].0@ == "set-cookie"@
                    || secret_header(headers@[j].0@, headers@[j].1@)),
        decreases headers@.len() - i,
    {
        let (name, value) = &headers[i];
        let keep = !(str_eq(name.as_str(), "set-cookie") || crate::security::is_secret_header(
            name.as_str(),
            value.as_str(),
        ));
        out.push(keep);
        i = i + 1;
    }
    out
}

/// A scoped request follows at most the redirect limit: past it, a redirect
/// fails instead of being followed.
pub proof fn law_redirects_are_bounded(
    redirect_count: u32,
    current: UrlView,
    location: Option<Seq<char>>,
)
    requires
        redirect_count >= MAX_REDIRECTS,
    ensures
        after_response_outcome(redirect_count, current, true, location) == Some(
            Err::<UrlView, AuthBoundaryError>(AuthBoundaryError::TooManyRedirects),
        ),
{
}

} // verus!
