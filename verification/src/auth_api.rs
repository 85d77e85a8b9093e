//! The browser-authentication surface: bounded request fields, browser
//! input conversion, the opaque attempt identity and stable error codes.

use crate::auth::VaultError;
use crate::browser::{BrowserError, BrowserInput, PointerButton, browser_error_code};
use crate::ids::{is_opaque_token, new_opaque_token};
use crate::playback::str_eq;
use crate::security::{is_http_scheme, url_parse, UrlParts};
use crate::text::{
    all_ident_chars, all_ident_chars_exec, byte_len, chars_of, contains_exec, contains_seq,
    has_control, has_control_exec, lower, lower_string, push_str,
};
use vstd::prelude::*;

verus! {

pub const MAX_REQUEST_ID: usize = 128;

pub const MAX_SITE_ID: usize = 128;

pub const MAX_ACCOUNT_REF: usize = 256;

pub const MAX_SOURCE: usize = 4096;

pub const MAX_CANDIDATE_REF: usize = 256;

pub const MAX_INPUT: usize = 2048;

pub const MAX_EVENTS: usize = 64;

pub const MAX_CURSOR: u64 = 1000000000;

/// Bounded free text: not empty, at most `max` bytes, no control character.
pub open spec fn bounded_text_spec(s: Seq<char>, max: nat) -> bool {
    s.len() > 0 && byte_len(s) <= max && !has_control(s)
}

/// A bounded reference: bounded text of identifier characters that names no
/// token, cookie or authorization.
pub open spec fn bounded_ref_spec(s: Seq<char>, max: nat) -> bool {
    &&& bounded_text_spec(s, max)
    &&& all_ident_chars(s)
    &&& !contains_seq(lower(s), "token"@)
    &&& !contains_seq(lower(s), "cookie"@)
    &&& !contains_seq(lower(s), "authorization"@)
}

pub fn bounded_text(value: &str, max: usize) -> (r: bool)
    ensures
        r == bounded_text_spec(value@, max as nat),
{
    !value.is_empty() && value.as_bytes().len() <= max && !has_control_exec(value)
}

pub fn bounded_ref(value: &str, max: usize) -> (r: bool)
    ensures
        r == bounded_ref_spec(value@, max as nat),
{
    if !bounded_text(value, max) || !all_ident_chars_exec(value) {
        return false;
    }
    let l = lower_string(value);
    let token = chars_of("token");
    let cookie = chars_of("cookie");
    let authorization = chars_of("authorization");
    !contains_exec(l.as_slice(), token.as_slice()) && !contains_exec(l.as_slice(), cookie.as_slice())
        && !contains_exec(l.as_slice(), authorization.as_slice())
}

/// A bounded reference never names credential material, whatever else it
/// holds.
pub proof fn law_bounded_ref_names_no_credential(s: Seq<char>, max: nat)
    requires
        bounded_ref_spec(s, max),
    ensures
        !contains_seq(lower(s), "cookie"@),
        !contains_seq(lower(s), "token"@),
        !contains_seq(lower(s), "authorization"@),
        all_ident_chars(s),
{
}

/// A route error: an HTTP status and a stable code.
#[derive(Clone, Copy, Debug, PartialEq, Eq)]
pub struct ApiError {
    pub status: u16,
    pub code: &'static str,
}

impl ApiError {
    pub fn bad_request(code: &'static str) -> (r: Self)
        ensures
            r.status == 400,
            r.code@ == code@,
    {
        ApiError { status: 400, code }
    }
}

/// A navigation target a request may name: bounded text that parses as an
/// `http` or `https` URL without user info.
pub open spec fn navigation_url_ok(value: Seq<char>) -> bool {
    &&& bounded_text_spec(value, MAX_SOURCE as nat)
    &&& url_parse(value) is Some
    &&& is_http_scheme(url_parse(value)->0.scheme)
    &&& url_parse(value)->0.username.len() == 0
    &&& url_parse(value)->0.password is None
}

/// Reads a navigation target; anything else is `AUTH_NAVIGATION_INVALID`.
pub fn parse_navigation_url(value: &str) -> (r: Result<UrlParts, ApiError>)
    ensures
        navigation_url_ok(value@) ==> r is Ok && Some(r->Ok_0@) == url_parse(value@),
        !navigation_url_ok(value@) ==> r is Err && r->Err_0.status == 400 && r->Err_0.code@
            == "AUTH_NAVIGATION_INVALID"@,
{
    if !bounded_text(value, MAX_SOURCE) {
        return Err(ApiError::bad_request("AUTH_NAVIGATION_INVALID"));
    }
    let url = match UrlParts::parse(value) {
        Some(u) => u,
        None => {
            return Err(ApiError::bad_request("AUTH_NAVIGATION_INVALID"));
        },
    };
    let scheme = url.scheme();
    if !(str_eq(scheme, "http") || str_eq(scheme, "https")) || !url.username().is_empty()
        || url.password().is_some() {
        return Err(ApiError::bad_request("AUTH_NAVIGATION_INVALID"));
    }
    Ok(url)
}

/// Browser input as a request carries it.
#[derive(Clone, Debug, PartialEq, Eq)]
pub enum InputDto {
    Key { key: String },
    Pointer { x: i32, y: i32, button: String },
    Text { value: String },
    Submit,
}

pub open spec fn abs_i32(v: i32) -> int {
    if v < 0 {
        -(v as int)
    } else {
        v as int
    }
}

pub open spec fn pointer_button_of(name: Seq<char>) -> Option<PointerButton> {
    if name == "primary"@ {
        Some(PointerButton::Primary)
    } else if name == "secondary"@ {
        Some(PointerButton::Secondary)
    } else if name == "auxiliary"@ {
        Some(PointerButton::Auxiliary)
    } else {
        None
    }
}

/// Which requested input is accepted: bounded key and text values, pointer
/// coordinates within 10000 of the origin with a known button, and submit.
pub open spec fn input_accepted(d: InputDto, r: BrowserInput) -> bool {
    match d {
        InputDto::Key { key } => bounded_text_spec(key@, MAX_INPUT as nat) && (r matches BrowserInput::Key { key: k } && k@ == key@),
        InputDto::Pointer { x, y, button } => abs_i32(x) <= 10000 && abs_i32(y) <= 10000
            && pointer_button_of(button@) is Some && r == (BrowserInput::Pointer {
            x,
            y,
            button: pointer_button_of(button@)->0,
        }),
        InputDto::Text { value } => bounded_text_spec(value@, MAX_INPUT as nat) && (r matches BrowserInput::Text { value: v } && v@ == value@),
        InputDto::Submit => r == BrowserInput::Submit,
    }
}

pub open spec fn input_acceptable(d: InputDto) -> bool {
    match d {
        InputDto::Key { key } => bounded_text_spec(key@, MAX_INPUT as nat),
        InputDto::Pointer { x, y, button } => abs_i32(x) <= 10000 && abs_i32(y) <= 10000
            && pointer_button_of(button@) is Some,
        InputDto::Text { value } => bounded_text_spec(value@, MAX_INPUT as nat),
        InputDto::Submit => true,
    }
}

fn within_pointer_range(v: i32) -> (r: bool)
    ensures
        r == (abs_i32(v) <= 10000),
{
    -10000 <= v && v <= 10000
}

impl InputDto {
    /// The browser input a request asks for, or `AUTH_INPUT_INVALID`.
    pub fn into_input(self) -> (r: Result<BrowserInput, ApiError>)
        ensures
            input_acceptable(self) ==> r is Ok && input_accepted(self, r->Ok_0),
            !input_acceptable(self) ==> r is Err && r->Err_0.status == 400
                && r->Err_0.code@ == "AUTH_INPUT_INVALID"@,
    {
        let invalid = ApiError::bad_request("AUTH_INPUT_INVALID");
        match self {
            InputDto::Key { key } => {
                if bounded_text(key.as_str(), MAX_INPUT) {
                    Ok(BrowserInput::Key { key })
                } else {
                    Err(invalid)
                }
            },
            InputDto::Pointer { x, y, button } => {
                if !within_pointer_range(x) || !within_pointer_range(y) {
                    return Err(invalid);
                }
                let b = button.as_str();
                let parsed = if str_eq(b, "primary") {
                    PointerButton::Primary
                } else if str_eq(b, "secondary") {
                    PointerButton::Secondary
                } else if str_eq(b, "auxiliary") {
                    PointerButton::Auxiliary
                } else {
                    return Err(invalid);
                };
                Ok(BrowserInput::Pointer { x, y, button: parsed })
            },
            InputDto::Text { value } => {
                if bounded_text(value.as_str(), MAX_INPUT) {
                    Ok(BrowserInput::Text { value })
                } else {
                    Err(invalid)
                }
            },
            InputDto::Submit => Ok(BrowserInput::Submit),
        }
    }
}

// ---------------------------------------------------------------------------
// Attempts and errors
// ---------------------------------------------------------------------------

/// The opaque identity of one browser authentication attempt: `auth-`
/// and an opaque token. It carries no site, account, vault reference or
/// browser session.
#[derive(Clone, PartialEq, Eq, Hash)]
pub struct BrowserAuthAttemptId(String);

impl View for BrowserAuthAttemptId {
    type V = Seq<char>;

    closed spec fn view(&self) -> Seq<char> {
        self.0@
    }
}

impl BrowserAuthAttemptId {
    pub fn new() -> (r: Self)
        ensures
            r@.len() == 37,
            r@.subrange(0, 5) == "auth-"@,
            is_opaque_token(r@.skip(5)),
    {
        let token = new_opaque_token();
        let mut s = String::new();
        push_str(&mut s, "auth-");
        push_str(&mut s, token.as_str());
        proof {
            reveal_strlit("auth-");
            assert(s@.subrange(0, 5) =~= "auth-"@);
            assert(s@.skip(5) =~= token@);
        }
        BrowserAuthAttemptId(s)
    }

    pub fn as_str(&self) -> (r: &str)
        ensures
            r@ == self@,
    {
        self.0.as_str()
    }

    /// The diagnostic form, which never shows the identity.
    pub fn debug_string(&self) -> (r: String)
        ensures
            r@ == "BrowserAuthAttemptId([opaque])"@,
    {
        "BrowserAuthAttemptId([opaque])".to_owned()
    }
}

#[derive(Clone, Copy, Debug, PartialEq, Eq, Structural)]
pub enum BrowserAuthRuntimeError {
    Browser(BrowserError),
    Vault(VaultError),
    CandidateRejected,
    InvalidCandidate,
    InvalidObservation,
    CandidateCaptureRequestMismatch,
    CandidateCaptureAlreadyConsumed,
}

/// Registry errors have stable, secret-free categories.
#[derive(Clone, Copy, Debug, PartialEq, Eq, Structural)]
pub enum BrowserAuthRegistryError {
    AttemptNotFound,
    AttemptExpired,
    Runtime(BrowserAuthRuntimeError),
}

pub open spec fn registry_error_code(e: BrowserAuthRegistryError) -> Seq<char> {
    match e {
        BrowserAuthRegistryError::AttemptNotFound => "AUTH_ATTEMPT_NOT_FOUND"@,
        BrowserAuthRegistryError::AttemptExpired => "AUTH_ATTEMPT_EXPIRED"@,
        BrowserAuthRegistryError::Runtime(r) => match r {
            BrowserAuthRuntimeError::Browser(b) => browser_error_code(b),
            BrowserAuthRuntimeError::Vault(_) => "AUTH_VAULT_REJECTED"@,
            BrowserAuthRuntimeError::CandidateRejected => "AUTH_CANDIDATE_REJECTED"@,
            BrowserAuthRuntimeError::InvalidCandidate => "AUTH_CANDIDATE_INVALID"@,
            BrowserAuthRuntimeError::InvalidObservation => "AUTH_OBSERVATION_INVALID"@,
            BrowserAuthRuntimeError::CandidateCaptureRequestMismatch => "AUTH_CANDIDATE_CAPTURE_REQUEST_MISMATCH"@,
            BrowserAuthRuntimeError::CandidateCaptureAlreadyConsumed => "AUTH_CANDIDATE_CAPTURE_ALREADY_CONSUMED"@,
        },
    }
}

impl BrowserAuthRegistryError {
    pub fn code(&self) -> (r: &'static str)
        ensures
            r@ == registry_error_code(*self),
    {
        match self {
            BrowserAuthRegistryError::AttemptNotFound => "AUTH_ATTEMPT_NOT_FOUND",
            BrowserAuthRegistryError::AttemptExpired => "AUTH_ATTEMPT_EXPIRED",
            BrowserAuthRegistryError::Runtime(r) => match r {
                BrowserAuthRuntimeError::Browser(b) => b.code(),
                BrowserAuthRuntimeError::Vault(_) => "AUTH_VAULT_REJECTED",
                BrowserAuthRuntimeError::CandidateRejected => "AUTH_CANDIDATE_REJECTED",
                BrowserAuthRuntimeError::InvalidCandidate => "AUTH_CANDIDATE_INVALID",
                BrowserAuthRuntimeError::InvalidObservation => "AUTH_OBSERVATION_INVALID",
                BrowserAuthRuntimeError::CandidateCaptureRequestMismatch => "AUTH_CANDIDATE_CAPTURE_REQUEST_MISMATCH",
                BrowserAuthRuntimeError::CandidateCaptureAlreadyConsumed => "AUTH_CANDIDATE_CAPTURE_ALREADY_CONSUMED",
            },
        }
    }

    pub fn from_runtime(error: BrowserAuthRuntimeError) -> (r: Self)
        ensures
            r == BrowserAuthRegistryError::Runtime(error),
    {
        BrowserAuthRegistryError::Runtime(error)
    }
}

} // verus!
