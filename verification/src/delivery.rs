//! The delivery request boundary: the generic media shape a site plugin
//! hands over, the server-owned input capabilities, and the validation of a
//! delivery request before any input is acquired.

use crate::auth::opt_str;
use crate::control::{snapshot_of, ControlService, ControlServiceView, ControlSnapshot, SnapshotView};
use crate::media::{
    DEFAULT_DELIVERY_TIMEOUT_MS, MAX_DELIVERY_INPUT_BYTES, container_ok, delivery_identifier_ok, group_ok, opaque_ref_ok, valid_container,
    valid_group, valid_identifier, valid_opaque_ref, DeliveryBinding, DeliveryBindingView,
    DeliveryError, MAX_DELIVERY_OUTPUT_BYTES, MAX_DELIVERY_TIMEOUT_MS, MAX_DELIVERY_TTL_MS,
};
use crate::playback::str_eq;
use crate::gateway::GatewayError;
use crate::security::{secret_header, is_secret_header, EgressScope, UrlParts, UrlView};
use crate::text::{has_control, has_control_exec, is_ascii_alphanumeric, lower};
use vstd::prelude::*;

verus! {

/// The version of the media shape this gateway understands. The site-plugin
/// interface that produces media shapes fixes this number; this crate does
/// not depend on that interface, so the value here is assumed, not checked
/// against it.
pub const MEDIA_SHAPE_VERSION: u32 = 1;

/// The most tracks a media shape may describe. Like the shape version, this
/// limit belongs to the site-plugin interface; the value here is assumed,
/// not checked against it.
pub const MAX_MEDIA_TRACKS: usize = 16;

/// The most header entries an upstream resource may carry on either side.
pub const MAX_RESOURCE_HEADERS: usize = 32;

#[derive(Clone, Copy, Debug, PartialEq, Eq, Structural)]
pub enum StreamProtocol {
    HttpFile,
    Hls,
    Dash,
}

#[derive(Clone, Copy, Debug, PartialEq, Eq, Structural)]
pub enum MediaTrackKind {
    Video,
    Audio,
    Muxed,
}

/// One track of a media shape, as a site plugin describes it.
#[derive(Debug)]
pub struct MediaTrack {
    pub id: String,
    pub kind: MediaTrackKind,
    pub group_id: Option<String>,
    pub protocol: StreamProtocol,
    pub codec: Option<String>,
    pub container: Option<String>,
    pub mime_type: Option<String>,
    pub width: Option<u32>,
    pub height: Option<u32>,
    pub bitrate: Option<u64>,
    pub language: Option<String>,
    pub access_ref: Option<String>,
    /// Unix seconds after which the track's access is no longer valid.
    pub expires_at: Option<u64>,
}

#[derive(Debug)]
pub struct MediaShapeV1 {
    pub version: u32,
    pub tracks: Vec<MediaTrack>,
}

/// One header of an upstream request. `value` is `None` where the header's
/// value is not visible ASCII text.
#[derive(Debug)]
pub struct HeaderEntry {
    pub name: String,
    pub value: Option<String>,
}

/// What server-side resolution produced for one upstream input.
pub struct UpstreamResource {
    pub url: UrlParts,
    pub protocol: StreamProtocol,
    pub public_headers: Vec<HeaderEntry>,
    pub secret_headers: Vec<HeaderEntry>,
    pub egress_scope: EgressScope,
}

/// A capability issued at a server-owned handoff: the track it serves, the
/// opaque access reference, and the upstream resource (which may hold
/// secret headers, so it stays private).
pub struct DeliveryInputCapability {
    track_id: String,
    access_ref: String,
    resource: UpstreamResource,
}

/// A delivery request: the binding it is for, the shape, one capability per
/// track, and its limits (milliseconds and bytes).
pub struct DeliveryRequest {
    pub binding: DeliveryBinding,
    pub shape: MediaShapeV1,
    pub inputs: Vec<DeliveryInputCapability>,
    pub timeout_ms: u64,
    pub output_ttl_ms: u64,
    pub max_output_bytes: u64,
}

// ---------------------------------------------------------------------------
// Views
// ---------------------------------------------------------------------------

pub struct TrackView {
    pub id: Seq<char>,
    pub kind: MediaTrackKind,
    pub group_id: Option<Seq<char>>,
    pub protocol: StreamProtocol,
    pub container: Option<Seq<char>>,
    pub access_ref: Option<Seq<char>>,
    pub expires_at: Option<u64>,
}

pub struct HeaderView {
    pub name: Seq<char>,
    pub value: Option<Seq<char>>,
}

pub struct InputView {
    pub track_id: Seq<char>,
    pub access_ref: Seq<char>,
    pub url: UrlView,
    pub protocol: StreamProtocol,
    pub public_headers: Seq<HeaderView>,
    pub secret_header_count: nat,
    pub egress_scope: EgressScope,
}

pub struct RequestView {
    pub binding: DeliveryBindingView,
    pub version: u32,
    pub tracks: Seq<TrackView>,
    pub inputs: Seq<InputView>,
    pub timeout_ms: u64,
    pub output_ttl_ms: u64,
    pub max_output_bytes: u64,
}

impl View for MediaTrack {
    type V = TrackView;

    open spec fn view(&self) -> TrackView {
        TrackView {
            id: self.id@,
            kind: self.kind,
            group_id: opt_str(self.group_id),
            protocol: self.protocol,
            container: opt_str(self.container),
            access_ref: opt_str(self.access_ref),
            expires_at: self.expires_at,
        }
    }
}

impl View for HeaderEntry {
    type V = HeaderView;

    open spec fn view(&self) -> HeaderView {
        HeaderView { name: self.name@, value: opt_str(self.value) }
    }
}

pub open spec fn headers_view(s: Seq<HeaderEntry>) -> Seq<HeaderView> {
    s.map_values(|h: HeaderEntry| h@)
}

impl View for DeliveryInputCapability {
    type V = InputView;

    closed spec fn view(&self) -> InputView {
        InputView {
            track_id: self.track_id@,
            access_ref: self.access_ref@,
            url: self.resource.url@,
            protocol: self.resource.protocol,
            public_headers: headers_view(self.resource.public_headers@),
            secret_header_count: self.resource.secret_headers@.len(),
            egress_scope: self.resource.egress_scope,
        }
    }
}

pub open spec fn tracks_view(s: Seq<MediaTrack>) -> Seq<TrackView> {
    s.map_values(|t: MediaTrack| t@)
}

pub open spec fn inputs_view(s: Seq<DeliveryInputCapability>) -> Seq<InputView> {
    s.map_values(|c: DeliveryInputCapability| c@)
}

impl View for DeliveryRequest {
    type V = RequestView;

    open spec fn view(&self) -> RequestView {
        RequestView {
            binding: self.binding@,
            version: self.shape.version,
            tracks: tracks_view(self.shape.tracks@),
            inputs: inputs_view(self.inputs@),
            timeout_ms: self.timeout_ms,
            output_ttl_ms: self.output_ttl_ms,
            max_output_bytes: self.max_output_bytes,
        }
    }
}

// ---------------------------------------------------------------------------
// Capabilities
// ---------------------------------------------------------------------------

/// An upstream URL fit for delivery: `http` or `https`, with a host and no
/// user information.
pub open spec fn upstream_url_ok(u: UrlView) -> bool {
    (u.scheme == "http"@ || u.scheme == "https"@) && u.host is Some && u.username.len() == 0
        && u.password is None
}

pub fn valid_upstream_url(url: &UrlParts) -> (r: bool)
    ensures
        r == upstream_url_ok(url@),
{
    proof {
        reveal_strlit("http");
        reveal_strlit("https");
    }
    (str_eq(url.scheme(), "http") || str_eq(url.scheme(), "https")) && url.host_str().is_some()
        && url.username().is_empty() && url.password().is_none()
}

impl DeliveryInputCapability {
    /// Makes a capability at a server-owned handoff; refused unless the
    /// track id is a delivery identifier, the access reference is opaque and
    /// free of secret markers, and the upstream URL is fit for delivery.
    pub fn new_server_owned(track_id: String, access_ref: String, resource: UpstreamResource) -> (r:
        Result<Self, DeliveryError>)
        ensures
            r is Ok <==> delivery_identifier_ok(track_id@) && opaque_ref_ok(access_ref@)
                && upstream_url_ok(resource.url@),
            r is Err ==> r == Err::<Self, DeliveryError>(DeliveryError::InputCapabilityRejected),
            r is Ok ==> r->Ok_0@ == (InputView {
                track_id: track_id@,
                access_ref: access_ref@,
                url: resource.url@,
                protocol: resource.protocol,
                public_headers: headers_view(resource.public_headers@),
                secret_header_count: resource.secret_headers@.len(),
                egress_scope: resource.egress_scope,
            }),
    {
        if !valid_identifier(track_id.as_str()) || !valid_opaque_ref(access_ref.as_str())
            || !valid_upstream_url(&resource.url) {
            return Err(DeliveryError::InputCapabilityRejected);
        }
        Ok(DeliveryInputCapability { track_id, access_ref, resource })
    }

    pub fn track_id(&self) -> (r: &str)
        ensures
            r@ == self@.track_id,
    {
        self.track_id.as_str()
    }

    pub fn access_ref(&self) -> (r: &str)
        ensures
            r@ == self@.access_ref,
    {
        self.access_ref.as_str()
    }

    pub fn url(&self) -> (r: &UrlParts)
        ensures
            r@ == self@.url,
    {
        &self.resource.url
    }

    pub fn protocol(&self) -> (r: StreamProtocol)
        ensures
            r == self@.protocol,
    {
        self.resource.protocol
    }

    pub fn egress_scope(&self) -> (r: &EgressScope)
        ensures
            *r == self@.egress_scope,
    {
        &self.resource.egress_scope
    }

    pub fn public_headers(&self) -> (r: &[HeaderEntry])
        ensures
            headers_view(r@) == self@.public_headers,
    {
        self.resource.public_headers.as_slice()
    }

    pub fn secret_headers(&self) -> (r: &[HeaderEntry])
        ensures
            r@.len() == self@.secret_header_count,
    {
        self.resource.secret_headers.as_slice()
    }
}

// ---------------------------------------------------------------------------
// Request validation
// ---------------------------------------------------------------------------

/// The binding, the shape's version and size, and the limits are in range.
pub open spec fn request_fields_ok(r: RequestView) -> bool {
    &&& delivery_identifier_ok(r.binding.session_id)
    &&& delivery_identifier_ok(r.binding.item_id)
    &&& delivery_identifier_ok(r.binding.group_id)
    &&& r.binding.item_revision != 0
    &&& r.binding.display_generation != 0
    &&& r.version == MEDIA_SHAPE_VERSION
    &&& r.tracks.len() <= MAX_MEDIA_TRACKS
    &&& 0 < r.timeout_ms <= MAX_DELIVERY_TIMEOUT_MS
    &&& 0 < r.output_ttl_ms <= MAX_DELIVERY_TTL_MS
    &&& 0 < r.max_output_bytes <= MAX_DELIVERY_OUTPUT_BYTES
}

/// Track `i` repeats the id of an earlier track.
pub open spec fn repeats_track_id(tracks: Seq<TrackView>, i: int) -> bool {
    exists|k: int| 0 <= k < i && #[trigger] tracks[k].id == tracks[i].id
}

/// What is wrong with track `i` on its own (its kind aside), given the
/// request's group and the time `now` in Unix seconds.
pub open spec fn track_fault(tracks: Seq<TrackView>, i: int, group: Seq<char>, now: u64) -> Option<
    DeliveryError,
> {
    let t = tracks[i];
    if repeats_track_id(tracks, i) || !delivery_identifier_ok(t.id) || t.group_id != Some(group)
        || !group_ok(group) || t.access_ref is None || t.protocol != StreamProtocol::HttpFile
        || !(t.container is Some && container_ok(t.container->0)) {
        Some(DeliveryError::UnsupportedShape)
    } else if t.expires_at is None {
        Some(DeliveryError::UnsupportedShape)
    } else if t.expires_at->0 <= now {
        Some(DeliveryError::ExpiredInput)
    } else {
        None
    }
}

/// The first `n` tracks checked in order: the first fault, or whether a
/// video and an audio track were seen.
pub open spec fn track_scan(tracks: Seq<TrackView>, n: nat, group: Seq<char>, now: u64) -> Result<
    (bool, bool),
    DeliveryError,
>
    decreases n,
{
    if n == 0 {
        Ok((false, false))
    } else {
        match track_scan(tracks, (n - 1) as nat, group, now) {
            Err(e) => Err(e),
            Ok((video, audio)) => match track_fault(tracks, n - 1, group, now) {
                Some(e) => Err(e),
                None => match tracks[n - 1].kind {
                    MediaTrackKind::Video => if video {
                        Err(DeliveryError::IncompleteTrackGroup)
                    } else {
                        Ok((true, audio))
                    },
                    MediaTrackKind::Audio => if audio {
                        Err(DeliveryError::IncompleteTrackGroup)
                    } else {
                        Ok((video, true))
                    },
                    MediaTrackKind::Muxed => Err(DeliveryError::UnsupportedShape),
                },
            },
        }
    }
}

/// `k` is the first track with id `id`.
pub open spec fn first_track(tracks: Seq<TrackView>, id: Seq<char>, k: int) -> bool {
    0 <= k < tracks.len() && tracks[k].id == id && forall|j: int|
        0 <= j < k ==> #[trigger] tracks[j].id != id
}

/// Input `j` repeats the track id of an earlier input.
pub open spec fn repeats_input_id(inputs: Seq<InputView>, j: int) -> bool {
    exists|k: int| 0 <= k < j && #[trigger] inputs[k].track_id == inputs[j].track_id
}

/// A public header whose text holds a control character.
pub open spec fn header_has_control(h: HeaderView) -> bool {
    h.value is Some && has_control(h.value->0)
}

/// A public header that is not text or that carries secret material.
pub open spec fn header_secret(h: HeaderView) -> bool {
    h.value is None || secret_header(h.name, h.value->0)
}

/// What is wrong with input `j`, given the tracks.
pub open spec fn input_fault(tracks: Seq<TrackView>, inputs: Seq<InputView>, j: int) -> Option<
    DeliveryError,
> {
    let c = inputs[j];
    if repeats_input_id(inputs, j) {
        Some(DeliveryError::InputCapabilityRejected)
    } else if !exists|k: int| first_track(tracks, c.track_id, k) {
        Some(DeliveryError::InputCapabilityRejected)
    } else {
        let t = tracks[choose|k: int| first_track(tracks, c.track_id, k)];
        if t.access_ref != Some(c.access_ref) || c.protocol != StreamProtocol::HttpFile
            || c.protocol != t.protocol {
            Some(DeliveryError::InputCapabilityRejected)
        } else if !upstream_url_ok(c.url) {
            Some(DeliveryError::InputCapabilityRejected)
        } else if exists|i: int|
            0 <= i < c.public_headers.len() && header_has_control(#[trigger] c.public_headers[i]) {
            Some(DeliveryError::InputCapabilityRejected)
        } else if c.public_headers.len() > MAX_RESOURCE_HEADERS || exists|i: int|
            0 <= i < c.public_headers.len() && header_secret(#[trigger] c.public_headers[i]) {
            Some(DeliveryError::SecretMaterial)
        } else if c.secret_header_count > MAX_RESOURCE_HEADERS {
            Some(DeliveryError::SecretMaterial)
        } else {
            None
        }
    }
}

/// The first `n` inputs checked in order: the first fault.
pub open spec fn input_scan(tracks: Seq<TrackView>, inputs: Seq<InputView>, n: nat) -> Option<
    DeliveryError,
>
    decreases n,
{
    if n == 0 {
        None
    } else {
        match input_scan(tracks, inputs, (n - 1) as nat) {
            Some(e) => Some(e),
            None => input_fault(tracks, inputs, n - 1),
        }
    }
}

/// The outcome of validating a request at `now` (Unix seconds): the request
/// fields, then a complete group of exactly one video and one audio track,
/// each well formed and unexpired, then one matching capability per track.
pub open spec fn request_outcome(r: RequestView, now: u64) -> Result<(), DeliveryError> {
    if !request_fields_ok(r) {
        Err(DeliveryError::InvalidRequest)
    } else if r.tracks.len() != 2 || r.inputs.len() != 2 {
        Err(DeliveryError::IncompleteTrackGroup)
    } else {
        match track_scan(r.tracks, r.tracks.len(), r.binding.group_id, now) {
            Err(e) => Err(e),
            Ok((video, audio)) => if !video || !audio {
                Err(DeliveryError::IncompleteTrackGroup)
            } else {
                match input_scan(r.tracks, r.inputs, r.inputs.len()) {
                    Some(e) => Err(e),
                    None => Ok(()),
                }
            },
        }
    }
}

fn opt_eq(a: &Option<String>, b: &str) -> (r: bool)
    ensures
        r == (opt_str(*a) == Some(b@)),
{
    match a {
        Some(x) => str_eq(x.as_str(), b),
        None => false,
    }
}

fn track_fault_exec(tracks: &Vec<MediaTrack>, i: usize, group: &str, now: u64) -> (r: Option<
    DeliveryError,
>)
    requires
        i < tracks@.len(),
    ensures
        r == track_fault(tracks_view(tracks@), i as int, group@, now),
{
    let ghost tv = tracks_view(tracks@);
    let t = &tracks[i];
    let mut repeated = false;
    let mut k: usize = 0;
    while k < i
        invariant
            i < tracks@.len(),
            k <= i,
            tv == tracks_view(tracks@),
            t == tracks@[i as int],
            repeated == exists|q: int| 0 <= q < k && #[trigger] tv[q].id == tv[i as int].id,
        decreases i - k,
    {
        assert(tv[k as int] == tracks@[k as int]@);
        assert(tv[i as int] == tracks@[i as int]@);
        if str_eq(tracks[k].id.as_str(), t.id.as_str()) {
            assert(tv[k as int].id == tv[i as int].id);
            repeated = true;
        }
        k = k + 1;
    }
    assert(tv[i as int] == t@);
    let container_fits = match &t.container {
        Some(c) => valid_container(c.as_str()),
        None => false,
    };
    if repeated || !valid_identifier(t.id.as_str()) || !opt_eq(&t.group_id, group)
        || !valid_group(group) || t.access_ref.is_none() || t.protocol != StreamProtocol::HttpFile
        || !container_fits {
        return Some(DeliveryError::UnsupportedShape);
    }
    match t.expires_at {
        None => Some(DeliveryError::UnsupportedShape),
        Some(expiry) => if expiry <= now {
            Some(DeliveryError::ExpiredInput)
        } else {
            None
        },
    }
}

fn headers_have_control(h: &[HeaderEntry]) -> (r: bool)
    ensures
        r == exists|i: int| 0 <= i < h@.len() && header_has_control(#[trigger] headers_view(h@)[i]),
{
    let ghost hv = headers_view(h@);
    let mut k: usize = 0;
    while k < h.len()
        invariant
            k <= h@.len(),
            hv == headers_view(h@),
            forall|q: int| 0 <= q < k ==> !header_has_control(#[trigger] hv[q]),
        decreases h@.len() - k,
    {
        assert(hv[k as int] == h@[k as int]@);
        let found = match &h[k].value {
            Some(v) => has_control_exec(v.as_str()),
            None => false,
        };
        if found {
            assert(header_has_control(hv[k as int]));
            return true;
        }
        k = k + 1;
    }
    false
}

fn headers_secret(h: &[HeaderEntry]) -> (r: bool)
    ensures
        r == exists|i: int| 0 <= i < h@.len() && header_secret(#[trigger] headers_view(h@)[i]),
{
    let ghost hv = headers_view(h@);
    let mut k: usize = 0;
    while k < h.len()
        invariant
            k <= h@.len(),
            hv == headers_view(h@),
            forall|q: int| 0 <= q < k ==> !header_secret(#[trigger] hv[q]),
        decreases h@.len() - k,
    {
        assert(hv[k as int] == h@[k as int]@);
        let found = match &h[k].value {
            Some(v) => is_secret_header(h[k].name.as_str(), v.as_str()),
            None => true,
        };
        if found {
            assert(header_secret(hv[k as int]));
            return true;
        }
        k = k + 1;
    }
    false
}

fn input_fault_exec(tracks: &Vec<MediaTrack>, inputs: &Vec<DeliveryInputCapability>, j: usize) -> (r:
    Option<DeliveryError>)
    requires
        j < inputs@.len(),
    ensures
        r == input_fault(tracks_view(tracks@), inputs_view(inputs@), j as int),
{
    let ghost tv = tracks_view(tracks@);
    let ghost iv = inputs_view(inputs@);
    let c = &inputs[j];
    assert(iv[j as int] == c@);
    let mut k: usize = 0;
    while k < j
        invariant
            j < inputs@.len(),
            k <= j,
            iv == inputs_view(inputs@),
            c == inputs@[j as int],
            iv.len() == inputs@.len(),
            c@ == iv[j as int],
            forall|q: int| 0 <= q < k ==> #[trigger] iv[q].track_id != iv[j as int].track_id,
        decreases j - k,
    {
        assert(iv[k as int] == inputs@[k as int]@);
        if str_eq(inputs[k].track_id.as_str(), c.track_id.as_str()) {
            assert(iv[k as int].track_id == iv[j as int].track_id);
            assert(repeats_input_id(iv, j as int));
            return Some(DeliveryError::InputCapabilityRejected);
        }
        k = k + 1;
    }
    assert(!repeats_input_id(iv, j as int));
    let mut t: usize = 0;
    while t < tracks.len() && !str_eq(tracks[t].id.as_str(), c.track_id.as_str())
        invariant
            t <= tracks@.len(),
            tv == tracks_view(tracks@),
            iv == inputs_view(inputs@),
            c@ == iv[j as int],
            forall|q: int| 0 <= q < t ==> #[trigger] tv[q].id != c@.track_id,
        decreases tracks@.len() - t,
    {
        assert(tv[t as int] == tracks@[t as int]@);
        t = t + 1;
    }
    if t == tracks.len() {
        assert forall|q: int| !first_track(tv, c@.track_id, q) by {
            if 0 <= q < tv.len() {
                assert(tv[q].id != c@.track_id);
            }
        }
        return Some(DeliveryError::InputCapabilityRejected);
    }
    let track = &tracks[t];
    assert(tv[t as int] == track@);
    assert(first_track(tv, c@.track_id, t as int));
    proof {
        let w = choose|q: int| first_track(tv, c@.track_id, q);
        if w < t {
            assert(tv[w].id != c@.track_id);
        } else if w > t {
            assert(tv[t as int].id != c@.track_id);
        }
        assert(w == t);
    }
    if !opt_eq(&track.access_ref, c.access_ref.as_str()) || c.resource.protocol
        != StreamProtocol::HttpFile || c.resource.protocol != track.protocol {
        return Some(DeliveryError::InputCapabilityRejected);
    }
    if !valid_upstream_url(&c.resource.url) {
        return Some(DeliveryError::InputCapabilityRejected);
    }
    if headers_have_control(c.resource.public_headers.as_slice()) {
        return Some(DeliveryError::InputCapabilityRejected);
    }
    if c.resource.public_headers.len() > MAX_RESOURCE_HEADERS || headers_secret(
        c.resource.public_headers.as_slice(),
    ) {
        return Some(DeliveryError::SecretMaterial);
    }
    if c.resource.secret_headers.len() > MAX_RESOURCE_HEADERS {
        return Some(DeliveryError::SecretMaterial);
    }
    None
}

/// Validates a delivery request at `now` (Unix seconds) before anything is
/// acquired.
pub fn validate_request(request: &DeliveryRequest, now: u64) -> (r: Result<(), DeliveryError>)
    ensures
        r == request_outcome(request@, now),
{
    let ghost rv = request@;
    let b = &request.binding;
    if !valid_identifier(b.session_id.as_str()) || !valid_identifier(b.item_id.as_str())
        || !valid_identifier(b.group_id.as_str()) || b.item_revision == 0 || b.display_generation
        == 0 || request.shape.version != MEDIA_SHAPE_VERSION || request.shape.tracks.len()
        > MAX_MEDIA_TRACKS || request.timeout_ms == 0 || request.timeout_ms > MAX_DELIVERY_TIMEOUT_MS
        || request.output_ttl_ms == 0 || request.output_ttl_ms > MAX_DELIVERY_TTL_MS
        || request.max_output_bytes == 0 || request.max_output_bytes > MAX_DELIVERY_OUTPUT_BYTES {
        return Err(DeliveryError::InvalidRequest);
    }
    if request.shape.tracks.len() != 2 || request.inputs.len() != 2 {
        return Err(DeliveryError::IncompleteTrackGroup);
    }
    let tracks = &request.shape.tracks;
    let mut video = false;
    let mut audio = false;
    let mut i: usize = 0;
    while i < tracks.len()
        invariant
            i <= tracks@.len(),
            rv == request@,
            request_fields_ok(rv),
            rv.tracks.len() == 2,
            rv.inputs.len() == 2,
            tracks == &request.shape.tracks,
            track_scan(rv.tracks, i as nat, rv.binding.group_id, now) == Ok::<
                (bool, bool),
                DeliveryError,
            >((video, audio)),
        decreases tracks@.len() - i,
    {
        match track_fault_exec(tracks, i, request.binding.group_id.as_str(), now) {
            Some(e) => {
                assert(track_scan(rv.tracks, (i + 1) as nat, rv.binding.group_id, now) == Err::<
                    (bool, bool),
                    DeliveryError,
                >(e));
                proof {
                    lemma_track_scan_stays_err(rv.tracks, (i + 1) as nat, tracks@.len(), rv.binding.group_id, now);
                }
                return Err(e);
            },
            None => {},
        }
        assert(rv.tracks[i as int] == tracks@[i as int]@);
        match tracks[i].kind {
            MediaTrackKind::Video => {
                if video {
                    proof {
                        lemma_track_scan_stays_err(rv.tracks, (i + 1) as nat, tracks@.len(), rv.binding.group_id, now);
                    }
                    return Err(DeliveryError::IncompleteTrackGroup);
                }
                video = true;
            },
            MediaTrackKind::Audio => {
                if audio {
                    proof {
                        lemma_track_scan_stays_err(rv.tracks, (i + 1) as nat, tracks@.len(), rv.binding.group_id, now);
                    }
                    return Err(DeliveryError::IncompleteTrackGroup);
                }
                audio = true;
            },
            MediaTrackKind::Muxed => {
                proof {
                    lemma_track_scan_stays_err(rv.tracks, (i + 1) as nat, tracks@.len(), rv.binding.group_id, now);
                }
                return Err(DeliveryError::UnsupportedShape);
            },
        }
        i = i + 1;
    }
    if !video || !audio {
        return Err(DeliveryError::IncompleteTrackGroup);
    }
    let mut j: usize = 0;
    while j < request.inputs.len()
        invariant
            j <= request.inputs@.len(),
            rv == request@,
            request_fields_ok(rv),
            rv.tracks.len() == 2,
            rv.inputs.len() == 2,
            track_scan(rv.tracks, rv.tracks.len(), rv.binding.group_id, now) == Ok::<
                (bool, bool),
                DeliveryError,
            >((true, true)),
            input_scan(rv.tracks, rv.inputs, j as nat) is None,
        decreases request.inputs@.len() - j,
    {
        match input_fault_exec(&request.shape.tracks, &request.inputs, j) {
            Some(e) => {
                proof {
                    lemma_input_scan_stays_err(rv.tracks, rv.inputs, (j + 1) as nat, request.inputs@.len());
                }
                return Err(e);
            },
            None => {},
        }
        j = j + 1;
    }
    Ok(())
}

proof fn lemma_track_scan_stays_err(tracks: Seq<TrackView>, n: nat, m: nat, group: Seq<char>, now: u64)
    requires
        n <= m,
        track_scan(tracks, n, group, now) is Err,
    ensures
        track_scan(tracks, m, group, now) == track_scan(tracks, n, group, now),
    decreases m - n,
{
    if n < m {
        lemma_track_scan_stays_err(tracks, n, (m - 1) as nat, group, now);
    }
}

proof fn lemma_input_scan_stays_err(tracks: Seq<TrackView>, inputs: Seq<InputView>, n: nat, m: nat)
    requires
        n <= m,
        input_scan(tracks, inputs, n) is Some,
    ensures
        input_scan(tracks, inputs, m) == input_scan(tracks, inputs, n),
    decreases m - n,
{
    if n < m {
        lemma_input_scan_stays_err(tracks, inputs, n, (m - 1) as nat);
    }
}

// ---------------------------------------------------------------------------
// Authority over a delivery
// ---------------------------------------------------------------------------

/// Decides whether a delivery binding still names the current playback
/// state. Implemented by the gateway below, and by its users for their own
/// session stores.
pub trait DeliveryAuthority {
    fn matches(&self, binding: &DeliveryBinding) -> bool;
}

/// The binding still names the current item, revision, media generation
/// and display generation of its session in `control`.
pub open spec fn binding_is_current(
    control: ControlServiceView,
    session_id: Seq<char>,
    b: DeliveryBindingView,
) -> bool {
    &&& b.session_id == session_id
    &&& control.sessions.contains_key(session_id)
    &&& {
        let snap = snapshot_of(session_id, control.sessions[session_id].playback);
        &&& snap.item_id == b.item_id
        &&& snap.item_revision == b.item_revision
        &&& snap.media_generation == b.media_generation
        &&& snap.display.generation == b.display_generation
    }
}

/// The authority of one playback session over its deliveries.
///
/// It owns the control service it was made with and answers from that
/// value: commands applied to a control service elsewhere after `new` do not
/// reach it. A caller that serves a live session checks each binding against
/// a fresh snapshot of the live service (`ControlService::snapshot`, then
/// `snapshot_names_binding`).
pub struct PlaybackDeliveryAuthority {
    control: ControlService,
    session_id: String,
}

impl PlaybackDeliveryAuthority {
    #[verifier::type_invariant]
    spec fn inv(self) -> bool {
        self.control.wf()
    }

    pub closed spec fn control_view(&self) -> ControlServiceView {
        self.control@
    }

    pub closed spec fn session_view(&self) -> Seq<char> {
        self.session_id@
    }

    pub fn new(control: ControlService, session_id: &str) -> (r: Self)
        requires
            control.wf(),
        ensures
            r.control_view() == control@,
            r.session_view() == session_id@,
    {
        PlaybackDeliveryAuthority { control, session_id: session_id.to_owned() }
    }
}

impl DeliveryAuthority for PlaybackDeliveryAuthority {
    fn matches(&self, binding: &DeliveryBinding) -> (r: bool)
        ensures
            r == binding_is_current(self.control_view(), self.session_view(), binding@),
    {
        proof {
            use_type_invariant(self);
        }
        if !str_eq(binding.session_id.as_str(), self.session_id.as_str()) {
            return false;
        }
        match self.control.snapshot(self.session_id.as_str()) {
            Err(_) => false,
            Ok(snapshot) => snapshot_names_binding(&snapshot, binding),
        }
    }
}

/// The snapshot's current item, revision, media generation and display
/// generation are the binding's.
pub open spec fn snapshot_names(s: SnapshotView, b: DeliveryBindingView) -> bool {
    &&& s.item_id == b.item_id
    &&& s.item_revision == b.item_revision
    &&& s.media_generation == b.media_generation
    &&& s.display.generation == b.display_generation
}

pub fn snapshot_names_binding(snapshot: &ControlSnapshot, binding: &DeliveryBinding) -> (r: bool)
    ensures
        r == snapshot_names(snapshot@, binding@),
{
    str_eq(snapshot.current_item.item_id.as_str(), binding.item_id.as_str())
        && snapshot.current_item.item_revision == binding.item_revision
        && snapshot.current_item.media_generation == binding.media_generation
        && snapshot.active_display.generation == binding.display_generation
}

// ---------------------------------------------------------------------------
// The HTTP file broker's settings
// ---------------------------------------------------------------------------

/// The broker that fetches already validated HTTP file inputs; it holds only
/// its request timeout.
#[derive(Clone, Copy, Debug)]
pub struct HttpFileDeliveryBroker {
    pub request_timeout_ms: u64,
}

impl HttpFileDeliveryBroker {
    pub fn new() -> (r: Self)
        ensures
            r.request_timeout_ms == DEFAULT_DELIVERY_TIMEOUT_MS,
    {
        HttpFileDeliveryBroker { request_timeout_ms: DEFAULT_DELIVERY_TIMEOUT_MS }
    }

    pub fn with_timeout(request_timeout_ms: u64) -> (r: Self)
        ensures
            r.request_timeout_ms == request_timeout_ms,
    {
        HttpFileDeliveryBroker { request_timeout_ms }
    }

    /// The timeout an acquisition runs under: the configured one, at most
    /// the delivery maximum and at least one millisecond.
    pub fn effective_timeout_ms(&self) -> (r: u64)
        ensures
            r == if self.request_timeout_ms > MAX_DELIVERY_TIMEOUT_MS {
                MAX_DELIVERY_TIMEOUT_MS
            } else if self.request_timeout_ms == 0 {
                1
            } else {
                self.request_timeout_ms
            },
    {
        if self.request_timeout_ms > MAX_DELIVERY_TIMEOUT_MS {
            MAX_DELIVERY_TIMEOUT_MS
        } else if self.request_timeout_ms == 0 {
            1
        } else {
            self.request_timeout_ms
        }
    }
}

impl Default for HttpFileDeliveryBroker {
    fn default() -> (r: Self)
        ensures
            r.request_timeout_ms == DEFAULT_DELIVERY_TIMEOUT_MS,
    {
        HttpFileDeliveryBroker::new()
    }
}

// ---------------------------------------------------------------------------
// Resolved streams
// ---------------------------------------------------------------------------

/// A stream as a site plugin resolved it: its public headers in the order
/// the plugin's map yields them.
pub struct ResolvedStream {
    pub id: String,
    pub protocol: StreamProtocol,
    pub url: UrlParts,
    pub public_headers: Vec<(String, String)>,
    pub upstream_access_ref: Option<String>,
}

/// An HTTP token character, as the http crate's header-name table admits
/// it (upper-case letters are accepted and lowered).
pub open spec fn header_token_char(c: char) -> bool {
    is_ascii_alphanumeric(c) || c == '!' || c == '#' || c == '$' || c == '%' || c == '&' || c
        == '\'' || c == '*' || c == '+' || c == '-' || c == '.' || c == '^' || c == '_' || c == '`'
        || c == '|' || c == '~'
}

/// What `axum::http::HeaderName::from_bytes` accepts: 1 to 65535 bytes,
/// each an HTTP token character (so each a single ASCII byte).
pub open spec fn http_header_name_valid(name: Seq<char>) -> bool {
    0 < name.len() <= 65535 && forall|i: int| 0 <= i < name.len() ==> header_token_char(#[trigger] name[i])
}

/// A character whose UTF-8 bytes `axum::http::HeaderValue::from_str` accepts:
/// a tab, or any code of 32 or more other than 127 (every byte of a
/// multi-byte character is 128 or more).
pub open spec fn header_value_char(c: char) -> bool {
    c == '\t' || (32 <= (c as u32) && (c as u32) != 127)
}

/// What `axum::http::HeaderValue::from_str` accepts.
pub open spec fn http_header_value_valid(value: Seq<char>) -> bool {
    forall|i: int| 0 <= i < value.len() ==> header_value_char(#[trigger] value[i])
}

/// Calls `axum::http::HeaderName::from_bytes` on the name's bytes: it
/// accepts them when there are 1 to 65535 and each is a token character.
#[verifier::external_body]
fn header_name_accepted(name: &str) -> (r: bool)
    ensures
        r == http_header_name_valid(name@),
{
    axum::http::HeaderName::from_bytes(name.as_bytes()).is_ok()
}

/// Calls `axum::http::HeaderValue::from_str`: it accepts a value whose
/// bytes are each a tab or at least 32 and not 127.
#[verifier::external_body]
fn header_value_accepted(value: &str) -> (r: bool)
    ensures
        r == http_header_value_valid(value@),
{
    axum::http::HeaderValue::from_str(value).is_ok()
}

/// Tab or a printable ASCII character: what a header value may hold to be
/// read back as text.
pub open spec fn visible_ascii(c: char) -> bool {
    c == '\t' || (32 <= (c as u32) && (c as u32) < 127)
}

/// The text of a header value, where every character is visible ASCII.
pub open spec fn header_text(value: Seq<char>) -> Option<Seq<char>> {
    if forall|i: int| 0 <= i < value.len() ==> visible_ascii(#[trigger] value[i]) {
        Some(value)
    } else {
        None
    }
}

fn header_text_exec(value: &str) -> (r: Option<String>)
    ensures
        opt_str(r) == header_text(value@),
{
    let v = crate::text::chars_of(value);
    let mut i: usize = 0;
    while i < v.len()
        invariant
            i <= v@.len(),
            v@ == value@,
            forall|j: int| 0 <= j < i ==> visible_ascii(#[trigger] v@[j]),
        decreases v@.len() - i,
    {
        let c = v[i];
        let code = c as u32;
        if !(c == '\t' || (32 <= code && code < 127)) {
            assert(!visible_ascii(v@[i as int]));
            return None;
        }
        i = i + 1;
    }
    Some(value.to_owned())
}

/// `h` set into a header list by name: the entry of that name takes the new
/// value, or it is appended.
pub open spec fn set_header(acc: Seq<HeaderView>, h: HeaderView) -> Seq<HeaderView> {
    if exists|i: int| 0 <= i < acc.len() && #[trigger] acc[i].name == h.name {
        acc.update(choose|i: int| 0 <= i < acc.len() && #[trigger] acc[i].name == h.name, h)
    } else {
        acc.push(h)
    }
}

pub open spec fn header_names_distinct(acc: Seq<HeaderView>) -> bool {
    forall|i: int, j: int| 0 <= i < j < acc.len() ==> #[trigger] acc[i].name != #[trigger] acc[j].name
}

pub open spec fn pairs_view(s: Seq<(String, String)>) -> Seq<(Seq<char>, Seq<char>)> {
    s.map_values(|p: (String, String)| (p.0@, p.1@))
}

/// The first `n` headers taken over in order: refused at the first one
/// that carries secret material or that the HTTP types do not accept;
/// otherwise the header list, names lowercased.
pub open spec fn headers_outcome(hs: Seq<(Seq<char>, Seq<char>)>, n: nat) -> Result<
    Seq<HeaderView>,
    GatewayError,
>
    decreases n,
{
    if n == 0 {
        Ok(Seq::empty())
    } else {
        match headers_outcome(hs, (n - 1) as nat) {
            Err(e) => Err(e),
            Ok(acc) => {
                let (name, value) = hs[n - 1];
                if secret_header(name, value) {
                    Err(GatewayError::SecretHeader)
                } else if !http_header_name_valid(name) || !http_header_value_valid(value) {
                    Err(GatewayError::InvalidHeader)
                } else {
                    Ok(set_header(acc, HeaderView { name: lower(name), value: header_text(value) }))
                }
            },
        }
    }
}

proof fn lemma_headers_outcome_err(hs: Seq<(Seq<char>, Seq<char>)>, n: nat, m: nat)
    requires
        n <= m,
        headers_outcome(hs, n) is Err,
    ensures
        headers_outcome(hs, m) == headers_outcome(hs, n),
    decreases m - n,
{
    if n < m {
        lemma_headers_outcome_err(hs, n, (m - 1) as nat);
    }
}

/// Takes over public headers from a resolved map: refused at the first
/// that carries secret material or that the HTTP types do not accept.
pub fn public_headers_from(pairs: &Vec<(String, String)>) -> (r: Result<Vec<HeaderEntry>, GatewayError>)
    ensures
        match headers_outcome(pairs_view(pairs@), pairs@.len()) {
            Err(e) => r == Err::<Vec<HeaderEntry>, GatewayError>(e),
            Ok(hs) => r is Ok && headers_view(r->Ok_0@) == hs,
        },
{
    let ghost hs = pairs_view(pairs@);
    let mut out: Vec<HeaderEntry> = Vec::new();
    let mut i: usize = 0;
    assert(headers_view(out@) =~= Seq::<HeaderView>::empty());
    while i < pairs.len()
        invariant
            i <= pairs@.len(),
            hs == pairs_view(pairs@),
            headers_outcome(hs, i as nat) == Ok::<Seq<HeaderView>, GatewayError>(headers_view(out@)),
            header_names_distinct(headers_view(out@)),
        decreases pairs@.len() - i,
    {
        let name = pairs[i].0.as_str();
        let value = pairs[i].1.as_str();
        assert(hs[i as int] == (name@, value@));
        if is_secret_header(name, value) {
            proof {
                lemma_headers_outcome_err(hs, (i + 1) as nat, hs.len());
            }
            return Err(GatewayError::SecretHeader);
        }
        if !header_name_accepted(name) || !header_value_accepted(value) {
            proof {
                lemma_headers_outcome_err(hs, (i + 1) as nat, hs.len());
            }
            return Err(GatewayError::InvalidHeader);
        }
        let lowered = crate::text::string_from_chars(crate::text::lower_string(name).as_slice());
        let entry = HeaderEntry { name: lowered, value: header_text_exec(value) };
        let ghost acc = headers_view(out@);
        let ghost h = entry@;
        let mut k: usize = 0;
        let mut found = false;
        while k < out.len()
            invariant_except_break
                !found,
            invariant
                k <= out@.len(),
                acc == headers_view(out@),
                h == entry@,
                forall|q: int| 0 <= q < k ==> #[trigger] acc[q].name != h.name,
            ensures
                found ==> k < out@.len() && acc[k as int].name == h.name,
                !found ==> k == out@.len(),
            decreases out@.len() - k,
        {
            assert(acc[k as int] == out@[k as int]@);
            if str_eq(out[k].name.as_str(), entry.name.as_str()) {
                found = true;
                break;
            }
            k = k + 1;
        }
        if found {
            assert(acc[k as int] == out@[k as int]@);
            proof {
                let w = choose|q: int| 0 <= q < acc.len() && #[trigger] acc[q].name == h.name;
                if w < k {
                    assert(acc[w].name != h.name);
                } else if w > k {
                    assert(acc[k as int].name != acc[w].name);
                }
            }
            out.set(k, entry);
            assert(headers_view(out@) =~= acc.update(k as int, h));
        } else {
            assert(!exists|q: int| 0 <= q < acc.len() && #[trigger] acc[q].name == h.name);
            out.push(entry);
            assert(headers_view(out@) =~= acc.push(h));
        }
        proof {
            let now = headers_view(out@);
            assert forall|a: int, b: int| 0 <= a < b < now.len() implies #[trigger] now[a].name
                != #[trigger] now[b].name by {
                if b < acc.len() {
                    if a != k && b != k {
                        assert(now[a] == acc[a] && now[b] == acc[b]);
                    } else if a == k {
                        assert(now[b] == acc[b]);
                    } else {
                        assert(now[a] == acc[a]);
                    }
                } else {
                    assert(now[a] == acc[a]);
                }
            }
        }
        i = i + 1;
    }
    assert(hs.len() == pairs@.len());
    Ok(out)
}

/// The upstream resource for a resolved stream under `scope`: its URL and
/// protocol, its public headers taken over (none of them secret), no
/// secret headers.
pub fn resource_from_resolved(stream: ResolvedStream, scope: EgressScope) -> (r: Result<
    UpstreamResource,
    GatewayError,
>)
    ensures
        match headers_outcome(pairs_view(stream.public_headers@), stream.public_headers@.len()) {
            Err(e) => r == Err::<UpstreamResource, GatewayError>(e),
            Ok(hs) => r is Ok && r->Ok_0.url@ == stream.url@ && r->Ok_0.protocol == stream.protocol
                && headers_view(r->Ok_0.public_headers@) == hs && r->Ok_0.secret_headers@.len() == 0
                && r->Ok_0.egress_scope == scope,
        },
{
    match public_headers_from(&stream.public_headers) {
        Err(e) => Err(e),
        Ok(public_headers) => Ok(UpstreamResource {
            url: stream.url,
            protocol: stream.protocol,
            public_headers,
            secret_headers: Vec::new(),
            egress_scope: scope,
        }),
    }
}


/// The first track whose id is `id` sits at `i`.
pub open spec fn first_track_at(tracks: Seq<TrackView>, id: Seq<char>, i: int) -> bool {
    &&& 0 <= i < tracks.len()
    &&& tracks[i].id == id
    &&& forall|j: int| 0 <= j < i ==> #[trigger] tracks[j].id != id
}

pub open spec fn has_track(tracks: Seq<TrackView>, id: Seq<char>) -> bool {
    exists|i: int| 0 <= i < tracks.len() && #[trigger] tracks[i].id == id
}

/// The kind of the first track whose id is `id`.
pub open spec fn track_kind(tracks: Seq<TrackView>, id: Seq<char>) -> MediaTrackKind {
    tracks[choose|i: int| first_track_at(tracks, id, i)].kind
}

/// The inputs `0..n` in order: each must name a track; a video or audio
/// track makes that input the video or audio one (a later one replaces an
/// earlier one), and a muxed track is refused.
pub open spec fn assign_scan(tracks: Seq<TrackView>, inputs: Seq<InputView>, n: nat) -> Result<
    (Option<int>, Option<int>),
    DeliveryError,
>
    decreases n,
{
    if n == 0 {
        Ok((None, None))
    } else {
        match assign_scan(tracks, inputs, (n - 1) as nat) {
            Err(e) => Err(e),
            Ok((v, a)) => {
                let id = inputs[n - 1].track_id;
                if !has_track(tracks, id) {
                    Err(DeliveryError::InputCapabilityRejected)
                } else {
                    match track_kind(tracks, id) {
                        MediaTrackKind::Video => Ok((Some(n - 1), a)),
                        MediaTrackKind::Audio => Ok((v, Some(n - 1))),
                        MediaTrackKind::Muxed => Err(DeliveryError::UnsupportedShape),
                    }
                }
            },
        }
    }
}

/// Which input is the video and which the audio, or why the inputs do not
/// make one video and one audio track.
pub open spec fn assign_outcome(tracks: Seq<TrackView>, inputs: Seq<InputView>) -> Result<
    (int, int),
    DeliveryError,
> {
    match assign_scan(tracks, inputs, inputs.len()) {
        Err(e) => Err(e),
        Ok((Some(v), Some(a))) => Ok((v, a)),
        Ok(_) => Err(DeliveryError::IncompleteTrackGroup),
    }
}

fn find_track(tracks: &Vec<MediaTrack>, id: &str) -> (r: Option<usize>)
    ensures
        match r {
            Some(i) => first_track_at(tracks_view(tracks@), id@, i as int),
            None => !has_track(tracks_view(tracks@), id@),
        },
{
    let ghost tv = tracks_view(tracks@);
    let mut i: usize = 0;
    while i < tracks.len()
        invariant
            i <= tracks@.len(),
            tv == tracks_view(tracks@),
            forall|j: int| 0 <= j < i ==> #[trigger] tv[j].id != id@,
        decreases tracks@.len() - i,
    {
        if str_eq(tracks[i].id.as_str(), id) {
            return Some(i);
        }
        i = i + 1;
    }
    None
}

/// Assigns the request's inputs to its video and audio tracks.
pub fn assign_input_tracks(request: &DeliveryRequest) -> (r: Result<(usize, usize), DeliveryError>)
    ensures
        match r {
            Ok((v, a)) => assign_outcome(request@.tracks, request@.inputs) == Ok::<(int, int), DeliveryError>(
                (v as int, a as int),
            ),
            Err(e) => assign_outcome(request@.tracks, request@.inputs) == Err::<(int, int), DeliveryError>(e),
        },
{
    let ghost tv = request@.tracks;
    let ghost iv = request@.inputs;
    let mut video: Option<usize> = None;
    let mut audio: Option<usize> = None;
    let mut n: usize = 0;
    while n < request.inputs.len()
        invariant
            n <= request.inputs@.len(),
            tv == request@.tracks,
            iv == request@.inputs,
            assign_scan(tv, iv, n as nat) == Ok::<(Option<int>, Option<int>), DeliveryError>(
                (
                    match video {
                        Some(x) => Some(x as int),
                        None => None,
                    },
                    match audio {
                        Some(x) => Some(x as int),
                        None => None,
                    },
                ),
            ),
            video is Some ==> video->0 < n,
            audio is Some ==> audio->0 < n,
        decreases request.inputs@.len() - n,
    {
        assert(iv[n as int] == request.inputs@[n as int]@);
        let i = match find_track(&request.shape.tracks, request.inputs[n].track_id()) {
            Some(i) => i,
            None => {
                proof {
                    assert(assign_scan(tv, iv, (n + 1) as nat) == Err::<(Option<int>, Option<int>), DeliveryError>(
                        DeliveryError::InputCapabilityRejected,
                    ));
                    lemma_scan_error_sticks(tv, iv, (n + 1) as nat, iv.len());
                }
                return Err(DeliveryError::InputCapabilityRejected);
            },
        };
        proof {
            let c = choose|c: int| first_track_at(tv, iv[n as int].track_id, c);
            assert(first_track_at(tv, iv[n as int].track_id, i as int));
            if c < i {
                assert(tv[c].id != iv[n as int].track_id);
            } else if c > i {
                assert(tv[i as int].id != iv[n as int].track_id);
            }
            assert(has_track(tv, iv[n as int].track_id));
        }
        match request.shape.tracks[i].kind {
            MediaTrackKind::Video => {
                video = Some(n);
            },
            MediaTrackKind::Audio => {
                audio = Some(n);
            },
            MediaTrackKind::Muxed => {
                proof {
                    lemma_scan_error_sticks(tv, iv, (n + 1) as nat, iv.len());
                }
                return Err(DeliveryError::UnsupportedShape);
            },
        }
        n = n + 1;
    }
    match (video, audio) {
        (Some(v), Some(a)) => Ok((v, a)),
        _ => Err(DeliveryError::IncompleteTrackGroup),
    }
}

/// Once the scan fails it fails the same way to the end.
proof fn lemma_scan_error_sticks(tracks: Seq<TrackView>, inputs: Seq<InputView>, n: nat, m: nat)
    requires
        n <= m,
        assign_scan(tracks, inputs, n) is Err,
    ensures
        assign_scan(tracks, inputs, m) == assign_scan(tracks, inputs, n),
    decreases m - n,
{
    if n < m {
        lemma_scan_error_sticks(tracks, inputs, n, (m - 1) as nat);
    }
}

/// A file that a delivery input broker has put in place on the server: its
/// server-owned path, size, protocol and container.
pub struct BrokerMaterialization {
    path: String,
    size_bytes: u64,
    protocol: StreamProtocol,
    container: String,
}

pub struct MaterializationView {
    pub path: Seq<char>,
    pub size_bytes: u64,
    pub protocol: StreamProtocol,
    pub container: Seq<char>,
}

impl View for BrokerMaterialization {
    type V = MaterializationView;

    closed spec fn view(&self) -> MaterializationView {
        MaterializationView {
            path: self.path@,
            size_bytes: self.size_bytes,
            protocol: self.protocol,
            container: self.container@,
        }
    }
}

/// What a broker may hand over: a non-empty path to a single file, not
/// empty and within the input limit, with a valid container name.
pub open spec fn materialization_ok(
    path: Seq<char>,
    size_bytes: u64,
    protocol: StreamProtocol,
    container: Seq<char>,
) -> bool {
    &&& path.len() > 0
    &&& protocol == StreamProtocol::HttpFile
    &&& 0 < size_bytes <= MAX_DELIVERY_INPUT_BYTES
    &&& container_ok(container)
}

impl BrokerMaterialization {
    pub fn from_server_owned_path(
        path: String,
        size_bytes: u64,
        protocol: StreamProtocol,
        container: String,
    ) -> (r: Result<Self, DeliveryError>)
        ensures
            materialization_ok(path@, size_bytes, protocol, container@) ==> r is Ok && r->Ok_0@
                == (MaterializationView {
                    path: path@,
                    size_bytes,
                    protocol,
                    container: container@,
                }),
            !materialization_ok(path@, size_bytes, protocol, container@) ==> r == Err::<
                Self,
                DeliveryError,
            >(DeliveryError::BrokerRejected),
    {
        if path.as_str().is_empty() || protocol != StreamProtocol::HttpFile || size_bytes == 0 || size_bytes
            > MAX_DELIVERY_INPUT_BYTES || !valid_container(container.as_str()) {
            return Err(DeliveryError::BrokerRejected);
        }
        Ok(BrokerMaterialization { path, size_bytes, protocol, container })
    }

    pub fn path(&self) -> (r: &str)
        ensures
            r@ == self@.path,
    {
        self.path.as_str()
    }

    pub fn size_bytes(&self) -> (r: u64)
        ensures
            r == self@.size_bytes,
    {
        self.size_bytes
    }

    pub fn protocol(&self) -> (r: StreamProtocol)
        ensures
            r == self@.protocol,
    {
        self.protocol
    }

    pub fn container(&self) -> (r: &str)
        ensures
            r@ == self@.container,
    {
        self.container.as_str()
    }
}

} // verus!
