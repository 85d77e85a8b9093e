//! The guard in front of the gateway's own HTTP surface: a request must name
//! the configured authority in its `Host` header, a cross-origin `Origin` is
//! refused, and a state-changing request must be JSON from an allowed
//! origin.

use crate::playback::str_eq;
use crate::security::{
    allows_host_spec, allows_origin_spec, eq_ignore_ascii_case, host_authority, is_valid_http_host,
    lower_eq, AuthorityView, HttpAuthorityPolicy,
};
use crate::text::{chars_of, push_char, trim, trim_bounds};
use vstd::prelude::*;

verus! {

/// Why the HTTP surface turns a request away before any route sees it.
#[derive(Clone, Copy, Debug, PartialEq, Eq, Structural)]
pub enum SurfaceRejection {
    /// No readable `Host` header, or one that is not a valid authority.
    InvalidHost,
    /// The `Host` header names another authority.
    HostNotAllowed,
    /// The `Origin` header is not the configured origin for the host.
    OriginMismatch,
    /// A state-changing request without a JSON content type.
    ContentTypeRequired,
    /// A state-changing request without an `Origin` header.
    OriginRequired,
}

pub open spec fn rejection_status(r: SurfaceRejection) -> u16 {
    match r {
        SurfaceRejection::InvalidHost => 400,
        SurfaceRejection::HostNotAllowed => 421,
        SurfaceRejection::OriginMismatch => 403,
        SurfaceRejection::ContentTypeRequired => 415,
        SurfaceRejection::OriginRequired => 403,
    }
}

pub open spec fn rejection_code(r: SurfaceRejection) -> Seq<char> {
    match r {
        SurfaceRejection::InvalidHost => "invalid_host"@,
        SurfaceRejection::HostNotAllowed => "host_not_allowed"@,
        SurfaceRejection::OriginMismatch => "origin_mismatch"@,
        SurfaceRejection::ContentTypeRequired => "content_type_required"@,
        SurfaceRejection::OriginRequired => "origin_required"@,
    }
}

impl SurfaceRejection {
    /// The HTTP status the rejection is answered with.
    pub fn status(self) -> (r: u16)
        ensures
            r == rejection_status(self),
    {
        match self {
            SurfaceRejection::InvalidHost => 400,
            SurfaceRejection::HostNotAllowed => 421,
            SurfaceRejection::OriginMismatch => 403,
            SurfaceRejection::ContentTypeRequired => 415,
            SurfaceRejection::OriginRequired => 403,
        }
    }

    /// The body text the rejection is answered with.
    pub fn code(self) -> (r: &'static str)
        ensures
            r@ == rejection_code(self),
    {
        match self {
            SurfaceRejection::InvalidHost => "invalid_host",
            SurfaceRejection::HostNotAllowed => "host_not_allowed",
            SurfaceRejection::OriginMismatch => "origin_mismatch",
            SurfaceRejection::ContentTypeRequired => "content_type_required",
            SurfaceRejection::OriginRequired => "origin_required",
        }
    }
}

/// The methods that change state.
pub open spec fn state_changing(method: Seq<char>) -> bool {
    method == "POST"@ || method == "PUT"@ || method == "PATCH"@ || method == "DELETE"@
}

/// The length of the part of `s` before its first `;`.
pub open spec fn segment_end(s: Seq<char>) -> nat
    decreases s.len(),
{
    if s.len() == 0 || s[0] == ';' {
        0
    } else {
        1 + segment_end(s.drop_first())
    }
}

/// The media type of a `Content-Type` value: what precedes the first `;`,
/// without surrounding white space.
pub open spec fn media_type(content_type: Seq<char>) -> Seq<char> {
    trim(content_type.take(segment_end(content_type) as int))
}

/// A `Content-Type` value whose media type is `application/json`, in any
/// letter case.
pub open spec fn json_content_type(content_type: Seq<char>) -> bool {
    eq_ignore_ascii_case(media_type(content_type), "application/json"@)
}

/// How the surface answers a request with these headers (each present only
/// where it could be read as text) and this method.
pub open spec fn surface_outcome(
    p: Seq<AuthorityView>,
    host: Option<Seq<char>>,
    origin: Option<Seq<char>>,
    method: Seq<char>,
    content_type: Option<Seq<char>>,
) -> Result<(), SurfaceRejection> {
    match host {
        None => Err(SurfaceRejection::InvalidHost),
        Some(h) => if host_authority(h) is None {
            Err(SurfaceRejection::InvalidHost)
        } else if !allows_host_spec(p, h) {
            Err(SurfaceRejection::HostNotAllowed)
        } else if origin is Some && !allows_origin_spec(p, origin->0, h) {
            Err(SurfaceRejection::OriginMismatch)
        } else if state_changing(method) {
            if !(content_type is Some && json_content_type(content_type->0)) {
                Err(SurfaceRejection::ContentTypeRequired)
            } else if origin is None {
                Err(SurfaceRejection::OriginRequired)
            } else {
                Ok(())
            }
        } else {
            Ok(())
        },
    }
}

pub fn is_state_changing(method: &str) -> (r: bool)
    ensures
        r == state_changing(method@),
{
    str_eq(method, "POST") || str_eq(method, "PUT") || str_eq(method, "PATCH") || str_eq(
        method,
        "DELETE",
    )
}

/// Whether a `Content-Type` value names JSON.
pub fn is_json_content_type(content_type: &str) -> (r: bool)
    ensures
        r == json_content_type(content_type@),
{
    let v = chars_of(content_type);
    let n = v.len();
    let mut segment: Vec<char> = Vec::new();
    let mut i: usize = 0;
    assert(v@.skip(0) =~= v@);
    while i < n && v[i] != ';'
        invariant
            n == v@.len(),
            i <= n,
            segment@ == v@.take(i as int),
            segment_end(v@) == i + segment_end(v@.skip(i as int)),
        decreases n - i,
    {
        assert(v@.skip(i as int).drop_first() =~= v@.skip(i + 1));
        assert(v@.skip(i as int)[0] == v@[i as int]);
        segment.push(v[i]);
        assert(segment@ =~= v@.take(i + 1));
        i = i + 1;
    }
    if i < n {
        assert(v@.skip(i as int)[0] == v@[i as int]);
    }
    assert(segment_end(v@) == i);
    let (start, end) = trim_bounds(&segment);
    let mut trimmed = String::new();
    let mut k: usize = start;
    while k < end
        invariant
            start <= k <= end <= segment@.len(),
            trimmed@ == segment@.subrange(start as int, k as int),
        decreases end - k,
    {
        push_char(&mut trimmed, segment[k]);
        assert(trimmed@ =~= segment@.subrange(start as int, k + 1));
        k = k + 1;
    }
    assert(trimmed@ == media_type(content_type@));
    lower_eq(trimmed.as_str(), "application/json")
}

/// The guard's decision on a request, from the `Host`, `Origin` and
/// `Content-Type` headers as text (`None` where missing or not text) and the
/// method's name.
pub fn check_http_surface(
    policy: &HttpAuthorityPolicy,
    host: Option<&str>,
    origin: Option<&str>,
    method: &str,
    content_type: Option<&str>,
) -> (r: Result<(), SurfaceRejection>)
    ensures
        r == surface_outcome(
            policy@,
            match host {
                Some(h) => Some(h@),
                None => None,
            },
            match origin {
                Some(o) => Some(o@),
                None => None,
            },
            method@,
            match content_type {
                Some(c) => Some(c@),
                None => None,
            },
        ),
{
    let host = match host {
        Some(h) => h,
        None => {
            return Err(SurfaceRejection::InvalidHost);
        },
    };
    if !is_valid_http_host(host) {
        return Err(SurfaceRejection::InvalidHost);
    }
    if !policy.allows_host(host) {
        return Err(SurfaceRejection::HostNotAllowed);
    }
    if let Some(o) = origin {
        if !policy.allows_origin_for_host(o, host) {
            return Err(SurfaceRejection::OriginMismatch);
        }
    }
    if is_state_changing(method) {
        let is_json = match content_type {
            Some(c) => is_json_content_type(c),
            None => false,
        };
        if !is_json {
            return Err(SurfaceRejection::ContentTypeRequired);
        }
        match origin {
            None => {
                return Err(SurfaceRejection::OriginRequired);
            },
            Some(o) => {
                if !policy.allows_origin_for_host(o, host) {
                    return Err(SurfaceRejection::OriginMismatch);
                }
            },
        }
    }
    Ok(())
}

/// A request that passes the guard names the configured authority; one
/// that changes state also carries a JSON body and comes from the
/// configured origin for that host.
pub proof fn law_passing_requests_are_same_origin(
    p: Seq<AuthorityView>,
    host: Option<Seq<char>>,
    origin: Option<Seq<char>>,
    method: Seq<char>,
    content_type: Option<Seq<char>>,
)
    requires
        surface_outcome(p, host, origin, method, content_type) is Ok,
    ensures
        host is Some && allows_host_spec(p, host->0),
        origin is Some ==> allows_origin_spec(p, origin->0, host->0),
        state_changing(method) ==> origin is Some && content_type is Some && json_content_type(
            content_type->0,
        ),
{
}

} // verus!
