//! The display adapter contract: the identity that binds every display
//! operation and the generic facts a display reports.

use crate::security::{is_http_scheme, url_query_names, UrlParts, UrlView};
use crate::playback::str_eq;
use crate::text::{lower, lower_string, string_from_chars};
use vstd::prelude::*;

verus! {

/// Identity supplied by the playback coordinator to bind every adapter
/// operation. An adapter may report candidate state for this identity, but
/// it cannot commit the active display or its generation.
#[derive(Clone, Debug)]
pub struct DisplayContext {
    pub session_id: String,
    pub item_id: String,
    pub item_revision: u64,
    pub display_id: String,
    pub display_generation: u64,
}

pub struct DisplayContextView {
    pub session_id: Seq<char>,
    pub item_id: Seq<char>,
    pub item_revision: u64,
    pub display_id: Seq<char>,
    pub display_generation: u64,
}

impl View for DisplayContext {
    type V = DisplayContextView;

    open spec fn view(&self) -> DisplayContextView {
        DisplayContextView {
            session_id: self.session_id@,
            item_id: self.item_id@,
            item_revision: self.item_revision,
            display_id: self.display_id@,
            display_generation: self.display_generation,
        }
    }
}

impl DisplayContext {
    pub fn new(
        session_id: String,
        item_id: String,
        item_revision: u64,
        display_id: String,
        display_generation: u64,
    ) -> (r: Self)
        ensures
            r@ == (DisplayContextView {
                session_id: session_id@,
                item_id: item_id@,
                item_revision,
                display_id: display_id@,
                display_generation,
            }),
    {
        DisplayContext { session_id, item_id, item_revision, display_id, display_generation }
    }

    pub fn clone_context(&self) -> (r: Self)
        ensures
            r@ == self@,
    {
        DisplayContext {
            session_id: self.session_id.clone(),
            item_id: self.item_id.clone(),
            item_revision: self.item_revision,
            display_id: self.display_id.clone(),
            display_generation: self.display_generation,
        }
    }
}

#[derive(Clone, Copy, Debug, PartialEq, Eq, Structural)]
pub enum CapabilityError {
    InvalidUrl,
}

/// A query parameter that would carry credentials.
pub open spec fn credential_param(name: Seq<char>) -> bool {
    let l = lower(name);
    l == "cookie"@ || l == "authorization"@ || l == "proxy-authorization"@
}

/// A URL that the gateway may hand a display: `http` or `https` with a
/// host, no user info, no fragment and no credential query parameter.
pub open spec fn gateway_url_ok(u: UrlView) -> bool {
    &&& is_http_scheme(u.scheme)
    &&& u.host is Some
    &&& u.username.len() == 0
    &&& u.password is None
    &&& u.fragment is None
    &&& forall|i: int|
        0 <= i < url_query_names(u.serialization).len() ==> !credential_param(
            #[trigger] url_query_names(u.serialization)[i],
        )
}

fn is_credential_param(name: &str) -> (r: bool)
    ensures
        r == credential_param(name@),
{
    let l = lower_string(name);
    let text = string_from_chars(l.as_slice());
    str_eq(text.as_str(), "cookie") || str_eq(text.as_str(), "authorization") || str_eq(
        text.as_str(),
        "proxy-authorization",
    )
}

/// An opaque, gateway-issued media capability for a display. It carries no
/// upstream headers, cookies or authorization material.
pub struct GatewayMediaCapability {
    url: UrlParts,
    pub context: DisplayContext,
}

impl GatewayMediaCapability {
    pub closed spec fn url_view(&self) -> UrlView {
        self.url@
    }

    pub closed spec fn context_view(&self) -> DisplayContextView {
        self.context@
    }

    /// A capability for a gateway URL, refused unless the URL may be handed
    /// to a display.
    pub fn from_gateway(url: UrlParts, context: DisplayContext) -> (r: Result<Self, CapabilityError>)
        ensures
            gateway_url_ok(url@) ==> r is Ok && r->Ok_0.url_view() == url@
                && r->Ok_0.context_view() == context@,
            !gateway_url_ok(url@) ==> r == Err::<Self, CapabilityError>(CapabilityError::InvalidUrl),
    {
        let scheme = url.scheme();
        if !(str_eq(scheme, "http") || str_eq(scheme, "https")) || url.host_str().is_none()
            || !url.username().is_empty() || url.password().is_some() || url.fragment().is_some() {
            return Err(CapabilityError::InvalidUrl);
        }
        let names = url.query_names();
        let ghost view = names@.map_values(|n: String| n@);
        let mut i: usize = 0;
        while i < names.len()
            invariant
                i <= names@.len(),
                view == names@.map_values(|n: String| n@),
                view == url_query_names(url@.serialization),
                forall|j: int| 0 <= j < i ==> !credential_param(#[trigger] view[j]),
            decreases names@.len() - i,
        {
            if is_credential_param(names[i].as_str()) {
                assert(credential_param(view[i as int]));
                return Err(CapabilityError::InvalidUrl);
            }
            i = i + 1;
        }
        Ok(GatewayMediaCapability { url, context })
    }

    pub fn url(&self) -> (r: &UrlParts)
        ensures
            r@ == self.url_view(),
    {
        &self.url
    }
}

/// A request to check that a display can play the capability's media.
pub struct ProbeRequest {
    pub context: DisplayContext,
    pub media: GatewayMediaCapability,
}

/// A request to get a display ready for the capability's media.
pub struct PrepareRequest {
    pub context: DisplayContext,
    pub media: GatewayMediaCapability,
}

/// A request to start the capability's media at a position.
pub struct StartRequest {
    pub context: DisplayContext,
    pub media: GatewayMediaCapability,
    pub position_ms: u64,
}

#[derive(Clone, Debug)]
pub struct DisplayInstance {
    pub id: String,
    pub adapter_type: String,
    pub label: String,
    pub online: bool,
    pub capabilities: Vec<String>,
}

pub struct DisplayInstanceView {
    pub id: Seq<char>,
    pub adapter_type: Seq<char>,
    pub label: Seq<char>,
    pub online: bool,
    pub capabilities: Seq<Seq<char>>,
}

impl View for DisplayInstance {
    type V = DisplayInstanceView;

    open spec fn view(&self) -> DisplayInstanceView {
        DisplayInstanceView {
            id: self.id@,
            adapter_type: self.adapter_type@,
            label: self.label@,
            online: self.online,
            capabilities: self.capabilities@.map_values(|s: String| s@),
        }
    }
}

#[derive(Clone, Debug, PartialEq, Eq)]
pub struct PositionSample {
    pub requested_ms: Option<u64>,
    pub reported_ms: u64,
    pub error_ms: Option<i64>,
}

#[derive(Clone, Copy, Debug, PartialEq, Eq, Structural)]
pub enum PlaybackObservation {
    Playing,
    Paused,
    Stopped,
    Unknown,
}

#[derive(Clone, Debug)]
pub struct DisplayStatus {
    pub context: DisplayContext,
    pub observation: PlaybackObservation,
    pub position: PositionSample,
}

pub struct DisplayStatusView {
    pub context: DisplayContextView,
    pub observation: PlaybackObservation,
    pub position: PositionSample,
}

impl View for DisplayStatus {
    type V = DisplayStatusView;

    open spec fn view(&self) -> DisplayStatusView {
        DisplayStatusView {
            context: self.context@,
            observation: self.observation,
            position: self.position,
        }
    }
}

#[derive(Clone, Debug)]
pub struct PrepareResult {
    pub context: DisplayContext,
    pub target: DisplayInstance,
}

#[derive(Clone, Debug)]
pub struct StartResult {
    pub status: DisplayStatus,
    pub command_accepted: bool,
    pub playback_confirmed: bool,
}

#[derive(Clone, Copy, Debug, PartialEq, Eq, Structural)]
pub enum DisplayCommand {
    Pause,
    Resume,
    Seek { position_ms: u64 },
    Stop,
}

#[derive(Clone, Debug, PartialEq, Eq)]
pub enum DisplayAdapterError {
    InvalidConfiguration,
    ServerUnavailable,
    AuthenticationFailed,
    TargetMissing,
    TargetOffline,
    TargetAmbiguous,
    MediaIncompatible,
    CommandRejected,
    PlaybackNotConfirmed { timeout_ms: u64 },
    Timeout,
    Cancelled,
    StaleContext,
    Protocol(String),
}

} // verus!
