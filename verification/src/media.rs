//! Gateway-owned delivery of validated separated audio/video media: the
//! delivery binding and errors, the bounded identifiers of a delivery
//! request, the MP4 box check of materialised inputs, the remux argument
//! vector, output publication and byte ranges.

use crate::gateway::{single_range, parse_single_range};
use crate::ids::now_ms;
use crate::security::StructuredCommand;
use crate::text::{
    all_ident_chars, all_ident_chars_exec, byte_len, chars_of, contains_exec, contains_seq,
    decimal, decimal_string, is_ascii_alphanumeric, is_ascii_alphanumeric_char, lower,
    lower_string,
};
use vstd::prelude::*;

verus! {

pub const DELIVERY_CONTRACT_VERSION: u32 = 1;

pub const DEFAULT_DELIVERY_TIMEOUT_MS: u64 = 30000;

pub const DEFAULT_DELIVERY_TTL_MS: u64 = 60000;

pub const MAX_DELIVERY_TIMEOUT_MS: u64 = 300000;

pub const MAX_DELIVERY_TTL_MS: u64 = 600000;

pub const MAX_DELIVERY_OUTPUT_BYTES: u64 = 134217728;

pub const MAX_DELIVERY_INPUT_BYTES: u64 = 134217728;

pub const MAX_CONCURRENT_DELIVERIES: u64 = 2;

pub const MAX_DELIVERY_OUTPUTS: usize = 32;

pub const MAX_DELIVERY_ID_BYTES: usize = 128;

pub const MAX_DELIVERY_GROUP_BYTES: usize = 128;

pub const MAX_DELIVERY_CONTAINER_BYTES: usize = 32;

pub const MAX_OPAQUE_REF_BYTES: usize = 256;

pub const MAX_MP4_BOX_DEPTH: usize = 8;

/// The full identity of one delivery attempt. No field comes from a
/// short-lived URL or from browser-provided state.
#[derive(Clone, Debug, PartialEq, Eq)]
pub struct DeliveryBinding {
    pub session_id: String,
    pub item_id: String,
    pub item_revision: u64,
    pub media_generation: u64,
    pub display_generation: u64,
    pub group_id: String,
}

pub struct DeliveryBindingView {
    pub session_id: Seq<char>,
    pub item_id: Seq<char>,
    pub item_revision: u64,
    pub media_generation: u64,
    pub display_generation: u64,
    pub group_id: Seq<char>,
}

impl View for DeliveryBinding {
    type V = DeliveryBindingView;

    open spec fn view(&self) -> DeliveryBindingView {
        DeliveryBindingView {
            session_id: self.session_id@,
            item_id: self.item_id@,
            item_revision: self.item_revision,
            media_generation: self.media_generation,
            display_generation: self.display_generation,
            group_id: self.group_id@,
        }
    }
}

impl DeliveryBinding {
    pub fn new(
        session_id: &str,
        item_id: &str,
        item_revision: u64,
        media_generation: u64,
        display_generation: u64,
        group_id: &str,
    ) -> (r: Self)
        ensures
            r@ == (DeliveryBindingView {
                session_id: session_id@,
                item_id: item_id@,
                item_revision,
                media_generation,
                display_generation,
                group_id: group_id@,
            }),
    {
        DeliveryBinding {
            session_id: session_id.to_owned(),
            item_id: item_id.to_owned(),
            item_revision,
            media_generation,
            display_generation,
            group_id: group_id.to_owned(),
        }
    }

    pub fn duplicate(&self) -> (r: Self)
        ensures
            r@ == self@,
    {
        DeliveryBinding {
            session_id: self.session_id.clone(),
            item_id: self.item_id.clone(),
            item_revision: self.item_revision,
            media_generation: self.media_generation,
            display_generation: self.display_generation,
            group_id: self.group_id.clone(),
        }
    }

    pub fn same_as(&self, other: &DeliveryBinding) -> (r: bool)
        ensures
            r == (self@ == other@),
    {
        self.session_id.eq(&other.session_id) && self.item_id.eq(&other.item_id)
            && self.item_revision == other.item_revision && self.media_generation
            == other.media_generation && self.display_generation == other.display_generation
            && self.group_id.eq(&other.group_id)
    }
}

#[derive(Clone, Debug, PartialEq, Eq)]
pub struct DeliveryResult {
    pub contract_version: u32,
    pub binding: DeliveryBinding,
    /// A same-origin gateway path only: no upstream URL, header or server
    /// access reference.
    pub gateway_path: String,
    pub content_type: &'static str,
    pub output_bytes: u64,
}

#[derive(Clone, Copy, Debug, PartialEq, Eq, Structural)]
pub enum DeliveryError {
    InvalidRequest,
    UnsupportedShape,
    IncompleteTrackGroup,
    StaleGeneration,
    ExpiredInput,
    InputCapabilityRejected,
    EgressRejected,
    SecretMaterial,
    BrokerRejected,
    InputLimitExceeded,
    ConcurrencyLimitExceeded,
    Cancelled,
    TimedOut,
    OutputLimitExceeded,
    ProcessFailed,
    CleanupFailed,
    OutputUnavailable,
    CapabilityExpired,
    CapabilityBindingMismatch,
    MethodNotAllowed,
    InvalidRange,
}

#[derive(Clone, Copy, Debug, PartialEq, Eq, Structural)]
pub enum DeliveryFailureClass {
    RefreshRequired,
    Stale,
    Cancelled,
    TimedOut,
    Rejected,
}

pub open spec fn delivery_code(e: DeliveryError) -> Seq<char> {
    match e {
        DeliveryError::InvalidRequest => "DELIVERY_REQUEST_INVALID"@,
        DeliveryError::UnsupportedShape => "DELIVERY_SHAPE_UNSUPPORTED"@,
        DeliveryError::IncompleteTrackGroup => "DELIVERY_TRACK_GROUP_INCOMPLETE"@,
        DeliveryError::StaleGeneration => "DELIVERY_STALE_GENERATION"@,
        DeliveryError::ExpiredInput => "DELIVERY_INPUT_EXPIRED"@,
        DeliveryError::InputCapabilityRejected => "DELIVERY_INPUT_CAPABILITY_REJECTED"@,
        DeliveryError::EgressRejected => "DELIVERY_EGRESS_REJECTED"@,
        DeliveryError::SecretMaterial => "DELIVERY_SECRET_REJECTED"@,
        DeliveryError::BrokerRejected => "DELIVERY_BROKER_REJECTED"@,
        DeliveryError::InputLimitExceeded => "DELIVERY_INPUT_LIMIT"@,
        DeliveryError::ConcurrencyLimitExceeded => "DELIVERY_CONCURRENCY_LIMIT"@,
        DeliveryError::Cancelled => "DELIVERY_CANCELLED"@,
        DeliveryError::TimedOut => "DELIVERY_TIMEOUT"@,
        DeliveryError::OutputLimitExceeded => "DELIVERY_OUTPUT_LIMIT"@,
        DeliveryError::ProcessFailed => "DELIVERY_PROCESS_FAILED"@,
        DeliveryError::CleanupFailed => "DELIVERY_CLEANUP_FAILED"@,
        DeliveryError::OutputUnavailable => "DELIVERY_OUTPUT_UNAVAILABLE"@,
        DeliveryError::CapabilityExpired => "DELIVERY_CAPABILITY_EXPIRED"@,
        DeliveryError::CapabilityBindingMismatch => "DELIVERY_CAPABILITY_BINDING_MISMATCH"@,
        DeliveryError::MethodNotAllowed => "DELIVERY_METHOD_NOT_ALLOWED"@,
        DeliveryError::InvalidRange => "DELIVERY_RANGE_INVALID"@,
    }
}

pub open spec fn failure_class(e: DeliveryError) -> DeliveryFailureClass {
    match e {
        DeliveryError::ExpiredInput | DeliveryError::CapabilityExpired => DeliveryFailureClass::RefreshRequired,
        DeliveryError::StaleGeneration | DeliveryError::CapabilityBindingMismatch => DeliveryFailureClass::Stale,
        DeliveryError::Cancelled => DeliveryFailureClass::Cancelled,
        DeliveryError::TimedOut => DeliveryFailureClass::TimedOut,
        _ => DeliveryFailureClass::Rejected,
    }
}

impl DeliveryError {
    /// The stable code of the error, as it is displayed.
    pub fn code(&self) -> (r: &'static str)
        ensures
            r@ == delivery_code(*self),
    {
        match self {
            DeliveryError::InvalidRequest => "DELIVERY_REQUEST_INVALID",
            DeliveryError::UnsupportedShape => "DELIVERY_SHAPE_UNSUPPORTED",
            DeliveryError::IncompleteTrackGroup => "DELIVERY_TRACK_GROUP_INCOMPLETE",
            DeliveryError::StaleGeneration => "DELIVERY_STALE_GENERATION",
            DeliveryError::ExpiredInput => "DELIVERY_INPUT_EXPIRED",
            DeliveryError::InputCapabilityRejected => "DELIVERY_INPUT_CAPABILITY_REJECTED",
            DeliveryError::EgressRejected => "DELIVERY_EGRESS_REJECTED",
            DeliveryError::SecretMaterial => "DELIVERY_SECRET_REJECTED",
            DeliveryError::BrokerRejected => "DELIVERY_BROKER_REJECTED",
            DeliveryError::InputLimitExceeded => "DELIVERY_INPUT_LIMIT",
            DeliveryError::ConcurrencyLimitExceeded => "DELIVERY_CONCURRENCY_LIMIT",
            DeliveryError::Cancelled => "DELIVERY_CANCELLED",
            DeliveryError::TimedOut => "DELIVERY_TIMEOUT",
            DeliveryError::OutputLimitExceeded => "DELIVERY_OUTPUT_LIMIT",
            DeliveryError::ProcessFailed => "DELIVERY_PROCESS_FAILED",
            DeliveryError::CleanupFailed => "DELIVERY_CLEANUP_FAILED",
            DeliveryError::OutputUnavailable => "DELIVERY_OUTPUT_UNAVAILABLE",
            DeliveryError::CapabilityExpired => "DELIVERY_CAPABILITY_EXPIRED",
            DeliveryError::CapabilityBindingMismatch => "DELIVERY_CAPABILITY_BINDING_MISMATCH",
            DeliveryError::MethodNotAllowed => "DELIVERY_METHOD_NOT_ALLOWED",
            DeliveryError::InvalidRange => "DELIVERY_RANGE_INVALID",
        }
    }

    /// How a caller should treat the failure.
    pub fn class(&self) -> (r: DeliveryFailureClass)
        ensures
            r == failure_class(*self),
    {
        match self {
            DeliveryError::ExpiredInput | DeliveryError::CapabilityExpired => DeliveryFailureClass::RefreshRequired,
            DeliveryError::StaleGeneration | DeliveryError::CapabilityBindingMismatch => DeliveryFailureClass::Stale,
            DeliveryError::Cancelled => DeliveryFailureClass::Cancelled,
            DeliveryError::TimedOut => DeliveryFailureClass::TimedOut,
            _ => DeliveryFailureClass::Rejected,
        }
    }
}

// ---------------------------------------------------------------------------
// Bounded identifiers
// ---------------------------------------------------------------------------

/// Lowercased text that names credential material.
pub open spec fn secret_marker_in(s: Seq<char>) -> bool {
    let l = lower(s);
    ||| contains_seq(l, "cookie"@)
    ||| contains_seq(l, "authorization"@)
    ||| contains_seq(l, "bearer"@)
    ||| contains_seq(l, "token"@)
    ||| contains_seq(l, "signed-url"@)
}

pub fn contains_secret_marker(value: &str) -> (r: bool)
    ensures
        r == secret_marker_in(value@),
{
    let l = lower_string(value);
    let m1 = chars_of("cookie");
    let m2 = chars_of("authorization");
    let m3 = chars_of("bearer");
    let m4 = chars_of("token");
    let m5 = chars_of("signed-url");
    contains_exec(l.as_slice(), m1.as_slice()) || contains_exec(l.as_slice(), m2.as_slice())
        || contains_exec(l.as_slice(), m3.as_slice()) || contains_exec(l.as_slice(), m4.as_slice())
        || contains_exec(l.as_slice(), m5.as_slice())
}

pub open spec fn delivery_identifier_ok(s: Seq<char>) -> bool {
    s.len() > 0 && byte_len(s) <= MAX_DELIVERY_ID_BYTES && all_ident_chars(s)
}

pub open spec fn group_ok(s: Seq<char>) -> bool {
    s.len() > 0 && byte_len(s) <= MAX_DELIVERY_GROUP_BYTES && all_ident_chars(s)
        && !secret_marker_in(s)
}

pub open spec fn opaque_ref_ok(s: Seq<char>) -> bool {
    s.len() > 0 && byte_len(s) <= MAX_OPAQUE_REF_BYTES && all_ident_chars(s)
        && !secret_marker_in(s)
}

/// Container names: ASCII letters, digits and `.`, `_`, `-`.
pub open spec fn container_char(c: char) -> bool {
    is_ascii_alphanumeric(c) || c == '.' || c == '_' || c == '-'
}

pub open spec fn container_ok(s: Seq<char>) -> bool {
    s.len() > 0 && byte_len(s) <= MAX_DELIVERY_CONTAINER_BYTES && forall|i: int|
        0 <= i < s.len() ==> container_char(#[trigger] s[i])
}

pub fn valid_identifier(value: &str) -> (r: bool)
    ensures
        r == delivery_identifier_ok(value@),
{
    !value.is_empty() && value.as_bytes().len() <= MAX_DELIVERY_ID_BYTES && all_ident_chars_exec(
        value,
    )
}

pub fn valid_group(value: &str) -> (r: bool)
    ensures
        r == group_ok(value@),
{
    !value.is_empty() && value.as_bytes().len() <= MAX_DELIVERY_GROUP_BYTES
        && all_ident_chars_exec(value) && !contains_secret_marker(value)
}

pub fn valid_opaque_ref(value: &str) -> (r: bool)
    ensures
        r == opaque_ref_ok(value@),
{
    !value.is_empty() && value.as_bytes().len() <= MAX_OPAQUE_REF_BYTES && all_ident_chars_exec(
        value,
    ) && !contains_secret_marker(value)
}

pub fn valid_container(value: &str) -> (r: bool)
    ensures
        r == container_ok(value@),
{
    if value.is_empty() || value.as_bytes().len() > MAX_DELIVERY_CONTAINER_BYTES {
        return false;
    }
    let v = chars_of(value);
    let mut i: usize = 0;
    while i < v.len()
        invariant
            i <= v@.len(),
            v@ == value@,
            forall|j: int| 0 <= j < i ==> container_char(#[trigger] v@[j]),
        decreases v@.len() - i,
    {
        let c = v[i];
        if !(is_ascii_alphanumeric_char(c) || c == '.' || c == '_' || c == '-') {
            assert(!container_char(v@[i as int]));
            return false;
        }
        i = i + 1;
    }
    true
}

// ---------------------------------------------------------------------------
// MP4 boxes
// ---------------------------------------------------------------------------

/// A big-endian 32-bit number.
pub open spec fn be32(a: u8, b: u8, c: u8, d: u8) -> nat {
    (a as nat) * 16777216 + (b as nat) * 65536 + (c as nat) * 256 + (d as nat)
}

pub open spec fn be32_at(s: Seq<u8>, i: int) -> nat {
    be32(s[i], s[i + 1], s[i + 2], s[i + 3])
}

pub open spec fn tag(a: u8, b: u8, c: u8, d: u8) -> Seq<u8> {
    seq![a, b, c, d]
}

/// Box types that hold further boxes.
pub open spec fn container_box(t: Seq<u8>) -> bool {
    ||| t == tag(109, 111, 111, 118)
    ||| t == tag(116, 114, 97, 107)
    ||| t == tag(109, 100, 105, 97)
    ||| t == tag(109, 105, 110, 102)
    ||| t == tag(100, 105, 110, 102)
    ||| t == tag(115, 116, 98, 108)
    ||| t == tag(101, 100, 116, 115)
    ||| t == tag(109, 118, 101, 120)
    ||| t == tag(109, 111, 111, 102)
    ||| t == tag(116, 114, 97, 102)
    ||| t == tag(109, 102, 114, 97)
    ||| t == tag(109, 101, 116, 97)
}

/// `n` data-reference entries, each a self-contained `url ` entry, that
/// fill `s` exactly.
pub open spec fn dref_entries_ok(s: Seq<u8>, n: nat) -> bool
    decreases n,
{
    if n == 0 {
        s.len() == 0
    } else {
        let size = be32_at(s, 0);
        &&& s.len() >= 8
        &&& size >= 12
        &&& size <= s.len()
        &&& s.subrange(4, 8) == tag(117, 114, 108, 32)
        &&& (be32_at(s, 8) % 16777216) % 2 == 1
        &&& dref_entries_ok(s.skip(size as int), (n - 1) as nat)
    }
}

/// A data-reference box payload: version and flags, an entry count, then
/// exactly that many self-contained entries. External references are
/// refused.
pub open spec fn dref_ok(p: Seq<u8>) -> bool {
    p.len() >= 8 && dref_entries_ok(p.skip(8), be32_at(p, 4))
}

/// The header length and the size of the box at the start of `s`: a
/// 32-bit size, or `1` and a 64-bit size whose high word is zero; the size
/// covers the header and fits in `s`.
pub open spec fn box_bounds(s: Seq<u8>) -> Option<(nat, nat)> {
    if s.len() < 8 {
        None
    } else {
        let size = be32_at(s, 0);
        if size == 1 {
            if s.len() < 16 || be32_at(s, 8) != 0 {
                None
            } else if be32_at(s, 12) < 16 || be32_at(s, 12) > s.len() {
                None
            } else {
                Some((16nat, be32_at(s, 12)))
            }
        } else if size < 8 || size > s.len() {
            None
        } else {
            Some((8nat, size))
        }
    }
}

/// The payload rules of one box with the given bounds: data references are
/// self-contained, `urn ` and `rdrf` boxes are refused, and container boxes
/// hold well-formed boxes one level deeper.
pub open spec fn box_payload_ok(s: Seq<u8>, header: nat, box_size: nat, depth: nat) -> bool
    decreases s.len(), 0nat,
{
    let t = s.subrange(4, 8);
    if t == tag(100, 114, 101, 102) {
        dref_ok(s.subrange(header as int, box_size as int))
    } else if t == tag(117, 114, 110, 32) || t == tag(114, 100, 114, 102) {
        false
    } else if container_box(t) {
        let child_start: nat = if t == tag(109, 101, 116, 97) {
            header + 4
        } else {
            header
        };
        if 8 <= header && child_start <= box_size && box_size <= s.len() {
            boxes_ok(s.subrange(child_start as int, box_size as int), depth + 1)
        } else {
            false
        }
    } else {
        true
    }
}

/// A sequence of well-formed boxes, nested at most `MAX_MP4_BOX_DEPTH`
/// deep.
pub open spec fn boxes_ok(s: Seq<u8>, depth: nat) -> bool
    decreases s.len(), 1nat,
{
    if depth > MAX_MP4_BOX_DEPTH {
        false
    } else if s.len() == 0 {
        true
    } else {
        match box_bounds(s) {
            None => false,
            Some((header, box_size)) => if 8 <= header && header <= box_size && box_size
                <= s.len() {
                box_payload_ok(s, header, box_size, depth) && boxes_ok(
                    s.skip(box_size as int),
                    depth,
                )
            } else {
                false
            },
        }
    }
}

fn read_be32(bytes: &[u8], i: usize) -> (r: usize)
    requires
        i + 4 <= bytes@.len(),
    ensures
        r as nat == be32_at(bytes@, i as int),
{
    let v: u64 = (bytes[i] as u64) * 16777216 + (bytes[i + 1] as u64) * 65536 + (bytes[i + 2] as u64)
        * 256 + (bytes[i + 3] as u64);
    assert(v < 4294967296);
    v as usize
}

fn tag_at(bytes: &[u8], i: usize, a: u8, b: u8, c: u8, d: u8) -> (r: bool)
    requires
        i + 4 <= bytes@.len(),
    ensures
        r == (bytes@.subrange(i as int, i + 4) == tag(a, b, c, d)),
{
    let r = bytes[i] == a && bytes[i + 1] == b && bytes[i + 2] == c && bytes[i + 3] == d;
    proof {
        let sub = bytes@.subrange(i as int, i + 4);
        if r {
            assert(sub =~= tag(a, b, c, d));
        } else if sub == tag(a, b, c, d) {
            assert(sub[0] == a && sub[1] == b && sub[2] == c && sub[3] == d);
        }
    }
    r
}

/// Whether a 4-byte box type holds further boxes.
pub fn is_mp4_container(box_type: &[u8]) -> (r: bool)
    ensures
        r == (box_type@.len() == 4 && container_box(box_type@)),
{
    if box_type.len() != 4 {
        return false;
    }
    assert(box_type@.subrange(0, 4) =~= box_type@);
    tag_at(box_type, 0, 109, 111, 111, 118) || tag_at(box_type, 0, 116, 114, 97, 107) || tag_at(
        box_type,
        0,
        109,
        100,
        105,
        97,
    ) || tag_at(box_type, 0, 109, 105, 110, 102) || tag_at(box_type, 0, 100, 105, 110, 102)
        || tag_at(box_type, 0, 115, 116, 98, 108) || tag_at(box_type, 0, 101, 100, 116, 115)
        || tag_at(box_type, 0, 109, 118, 101, 120) || tag_at(box_type, 0, 109, 111, 111, 102)
        || tag_at(box_type, 0, 116, 114, 97, 102) || tag_at(box_type, 0, 109, 102, 114, 97)
        || tag_at(box_type, 0, 109, 101, 116, 97)
}

/// Checks the payload `bytes[payload_start..box_end]` of a data-reference
/// box.
pub fn validate_data_reference_box(bytes: &[u8], payload_start: usize, box_end: usize) -> (r:
    Result<(), DeliveryError>)
    requires
        payload_start <= box_end <= bytes@.len(),
    ensures
        r is Ok == dref_ok(bytes@.subrange(payload_start as int, box_end as int)),
        r is Err ==> r == Err::<(), DeliveryError>(DeliveryError::BrokerRejected),
{
    let ghost p = bytes@.subrange(payload_start as int, box_end as int);
    if box_end - payload_start < 8 {
        return Err(DeliveryError::BrokerRejected);
    }
    let entry_count = read_be32(bytes, payload_start + 4);
    assert(be32_at(p, 4) == be32_at(bytes@, payload_start + 4));
    let mut offset = payload_start + 8;
    let mut i: usize = 0;
    assert(p.skip(8) =~= bytes@.subrange(offset as int, box_end as int));
    while i < entry_count
        invariant
            payload_start + 8 <= offset <= box_end <= bytes@.len(),
            i <= entry_count,
            p == bytes@.subrange(payload_start as int, box_end as int),
            p.len() >= 8,
            dref_ok(p) == dref_entries_ok(
                bytes@.subrange(offset as int, box_end as int),
                (entry_count - i) as nat,
            ),
        decreases entry_count - i,
    {
        let ghost s = bytes@.subrange(offset as int, box_end as int);
        if box_end - offset < 8 {
            return Err(DeliveryError::BrokerRejected);
        }
        let size = read_be32(bytes, offset);
        assert(be32_at(s, 0) == be32_at(bytes@, offset as int));
        if size < 12 || size > box_end - offset {
            return Err(DeliveryError::BrokerRejected);
        }
        let url_entry = tag_at(bytes, offset + 4, 117, 114, 108, 32);
        assert(s.subrange(4, 8) =~= bytes@.subrange(offset + 4, offset + 8));
        if !url_entry {
            return Err(DeliveryError::BrokerRejected);
        }
        let flags = read_be32(bytes, offset + 8);
        assert(be32_at(s, 8) == be32_at(bytes@, offset + 8));
        if (flags % 16777216) % 2 == 0 {
            return Err(DeliveryError::BrokerRejected);
        }
        assert(s.skip(size as int) =~= bytes@.subrange(offset + size, box_end as int));
        offset = offset + size;
        i = i + 1;
    }
    if offset != box_end {
        return Err(DeliveryError::BrokerRejected);
    }
    Ok(())
}

fn read_box_bounds(bytes: &[u8], pos: usize, end: usize) -> (r: Option<(usize, usize)>)
    requires
        pos <= end <= bytes@.len(),
    ensures
        match r {
            Some((h, b)) => box_bounds(bytes@.subrange(pos as int, end as int)) == Some(
                (h as nat, b as nat),
            ),
            None => box_bounds(bytes@.subrange(pos as int, end as int)) is None,
        },
{
    let ghost s = bytes@.subrange(pos as int, end as int);
    if end - pos < 8 {
        return None;
    }
    let size = read_be32(bytes, pos);
    assert(be32_at(s, 0) == be32_at(bytes@, pos as int));
    if size == 1 {
        if end - pos < 16 {
            return None;
        }
        let high = read_be32(bytes, pos + 8);
        assert(be32_at(s, 8) == be32_at(bytes@, pos + 8));
        if high != 0 {
            return None;
        }
        let low = read_be32(bytes, pos + 12);
        assert(be32_at(s, 12) == be32_at(bytes@, pos + 12));
        if low < 16 || low > end - pos {
            return None;
        }
        Some((16, low))
    } else {
        if size < 8 || size > end - pos {
            return None;
        }
        Some((8, size))
    }
}

/// Checks the payload of the box at `pos` with the given bounds.
fn check_box_payload(bytes: &[u8], pos: usize, end: usize, header: usize, box_size: usize, depth: usize) -> (r:
    bool)
    requires
        pos <= end <= bytes@.len(),
        8 <= header <= box_size <= end - pos,
        depth <= MAX_MP4_BOX_DEPTH,
    ensures
        r == box_payload_ok(
            bytes@.subrange(pos as int, end as int),
            header as nat,
            box_size as nat,
            depth as nat,
        ),
    decreases box_size, 0nat,
{
    let ghost s = bytes@.subrange(pos as int, end as int);
    let payload_start = pos + header;
    let box_end = pos + box_size;
    assert(s.subrange(4, 8) =~= bytes@.subrange(pos + 4, pos + 8));
    if tag_at(bytes, pos + 4, 100, 114, 101, 102) {
        assert(s.subrange(header as int, box_size as int) =~= bytes@.subrange(
            payload_start as int,
            box_end as int,
        ));
        validate_data_reference_box(bytes, payload_start, box_end).is_ok()
    } else if tag_at(bytes, pos + 4, 117, 114, 110, 32) || tag_at(bytes, pos + 4, 114, 100, 114, 102) {
        false
    } else if is_mp4_container(slice_of(bytes, pos + 4, pos + 8)) {
        let child_start = if tag_at(bytes, pos + 4, 109, 101, 116, 97) {
            match payload_start.checked_add(4) {
                Some(c) => c,
                None => {
                    return false;
                },
            }
        } else {
            payload_start
        };
        if child_start > box_end {
            return false;
        }
        assert(s.subrange(child_start - pos, box_size as int) =~= bytes@.subrange(
            child_start as int,
            box_end as int,
        ));
        inspect_mp4_boxes(bytes, child_start, box_end, depth + 1).is_ok()
    } else {
        true
    }
}

/// Checks the boxes in `bytes[offset..end]`, nested `depth` deep.
pub fn inspect_mp4_boxes(bytes: &[u8], offset: usize, end: usize, depth: usize) -> (r: Result<
    (),
    DeliveryError,
>)
    requires
        offset <= end <= bytes@.len(),
    ensures
        r is Ok == boxes_ok(bytes@.subrange(offset as int, end as int), depth as nat),
        r is Err ==> r == Err::<(), DeliveryError>(DeliveryError::BrokerRejected),
    decreases end - offset, 1nat,
{
    if depth > MAX_MP4_BOX_DEPTH {
        return Err(DeliveryError::BrokerRejected);
    }
    let ghost whole = bytes@.subrange(offset as int, end as int);
    let mut pos = offset;
    while pos < end
        invariant
            offset <= pos <= end <= bytes@.len(),
            whole == bytes@.subrange(offset as int, end as int),
            depth <= MAX_MP4_BOX_DEPTH,
            boxes_ok(whole, depth as nat) == boxes_ok(
                bytes@.subrange(pos as int, end as int),
                depth as nat,
            ),
        decreases end - pos,
    {
        let ghost s = bytes@.subrange(pos as int, end as int);
        let (header, box_size) = match read_box_bounds(bytes, pos, end) {
            Some(b) => b,
            None => {
                return Err(DeliveryError::BrokerRejected);
            },
        };
        if !check_box_payload(bytes, pos, end, header, box_size, depth) {
            return Err(DeliveryError::BrokerRejected);
        }
        assert(s.skip(box_size as int) =~= bytes@.subrange(pos + box_size, end as int));
        pos = pos + box_size;
    }
    assert(bytes@.subrange(pos as int, end as int).len() == 0);
    Ok(())
}

fn slice_of(bytes: &[u8], from: usize, to: usize) -> (r: &[u8])
    requires
        from <= to <= bytes@.len(),
    ensures
        r@ == bytes@.subrange(from as int, to as int),
{
    vstd::slice::slice_subrange(bytes, from, to)
}

/// A materialised MP4 input: at least 16 bytes, a leading `ftyp` box whose
/// size fits, and well-formed boxes throughout.
pub open spec fn mp4_input_ok(b: Seq<u8>) -> bool {
    &&& b.len() >= 16
    &&& b.subrange(4, 8) == tag(102, 116, 121, 112)
    &&& 16 <= be32_at(b, 0) <= b.len()
    &&& boxes_ok(b, 0)
}

pub fn validate_mp4_bytes(bytes: &[u8]) -> (r: Result<(), DeliveryError>)
    ensures
        r is Ok == mp4_input_ok(bytes@),
        r is Err ==> r == Err::<(), DeliveryError>(DeliveryError::BrokerRejected),
{
    if bytes.len() < 16 || !tag_at(bytes, 4, 102, 116, 121, 112) {
        return Err(DeliveryError::BrokerRejected);
    }
    let first_box_size = read_be32(bytes, 0);
    if first_box_size < 16 || first_box_size > bytes.len() {
        return Err(DeliveryError::BrokerRejected);
    }
    assert(bytes@.subrange(0, bytes@.len() as int) =~= bytes@);
    inspect_mp4_boxes(bytes, 0, bytes.len(), 0)
}

// ---------------------------------------------------------------------------
// Ranges, remux arguments, the clock and cancellation
// ---------------------------------------------------------------------------

/// One byte range of a published output: as a single range, but refused for
/// an empty body and for any `,` in the header.
pub fn parse_range(value: &str, len: usize) -> (r: Option<(usize, usize)>)
    ensures
        match r {
            Some((s, e)) => single_range(value@, len as nat) == Some((s as nat, e as nat)),
            None => single_range(value@, len as nat) is None,
        },
{
    let v = chars_of(value);
    let comma = chars_of(",");
    if len == 0 || contains_exec(v.as_slice(), comma.as_slice()) {
        proof {
            reveal_strlit(",");
            reveal_strlit("bytes=");
            if contains_seq(value@, ","@) && starts_with_bytes(value@) {
                let i = choose|i: int| crate::text::occurs_at(value@, ","@, i);
                assert(value@.subrange(i, i + 1)[0] == ',');
                if i < 6 {
                    assert(value@.subrange(0, 6)[i] == value@[i]);
                }
                assert(value@.skip(6)[i - 6] == ',');
            }
        }
        return None;
    }
    parse_single_range(value, len)
}

spec fn starts_with_bytes(s: Seq<char>) -> bool {
    crate::text::starts_with(s, "bytes="@)
}

pub open spec fn ffmpeg_argv(
    program: Seq<char>,
    video: Seq<char>,
    audio: Seq<char>,
    output: Seq<char>,
    max_output_bytes: u64,
) -> Seq<Seq<char>> {
    seq![
        program,
        "-hide_banner"@,
        "-loglevel"@,
        "error"@,
        "-nostdin"@,
        "-y"@,
        "-protocol_whitelist"@,
        "file"@,
        "-f"@,
        "mp4"@,
        "-i"@,
        video,
        "-protocol_whitelist"@,
        "file"@,
        "-f"@,
        "mp4"@,
        "-i"@,
        audio,
        "-map"@,
        "0:v:0"@,
        "-map"@,
        "1:a:0"@,
        "-c:v"@,
        "copy"@,
        "-c:a"@,
        "copy"@,
        "-movflags"@,
        "+frag_keyframe+empty_moov+default_base_moof"@,
        "-fs"@,
        decimal(max_output_bytes as nat),
        "-f"@,
        "mp4"@,
        output,
    ]
}

/// The remux invocation: both inputs are read as local MP4 files only (the
/// protocol whitelist precedes each input), streams are copied, and the
/// output size is bounded.
pub fn ffmpeg_command(
    program: &str,
    video: &str,
    audio: &str,
    output: &str,
    max_output_bytes: u64,
) -> (r: StructuredCommand)
    ensures
        r@ == ffmpeg_argv(program@, video@, audio@, output@, max_output_bytes),
{
    let size = decimal_string(max_output_bytes);
    let c = StructuredCommand::new(program).arg("-hide_banner").arg("-loglevel").arg("error").arg(
        "-nostdin",
    ).arg("-y").arg("-protocol_whitelist").arg("file").arg("-f").arg("mp4").arg("-i").arg(
        video,
    ).arg("-protocol_whitelist").arg("file").arg("-f").arg("mp4").arg("-i").arg(audio).arg(
        "-map",
    ).arg("0:v:0").arg("-map").arg("1:a:0").arg("-c:v").arg("copy").arg("-c:a").arg("copy").arg(
        "-movflags",
    ).arg("+frag_keyframe+empty_moov+default_base_moof").arg("-fs").arg(size.as_str()).arg(
        "-f",
    ).arg("mp4").arg(output);
    assert(c@ =~= ffmpeg_argv(program@, video@, audio@, output@, max_output_bytes));
    c
}

/// Whole seconds since the Unix epoch.
pub fn unix_seconds() -> (r: u64) {
    now_ms() / 1000
}

/// The gateway path of a published output: the token, then the binding it
/// must be presented with.
pub open spec fn delivery_path_spec(token: Seq<char>, b: DeliveryBindingView) -> Seq<char> {
    "/media/delivery/"@ + token + "/"@ + b.session_id + "/"@ + b.item_id + "/"@ + decimal(
        b.item_revision as nat,
    ) + "/"@ + decimal(b.media_generation as nat) + "/"@ + decimal(b.display_generation as nat)
        + "/"@ + b.group_id
}

pub fn delivery_path(token: &str, binding: &DeliveryBinding) -> (r: String)
    ensures
        r@ == delivery_path_spec(token@, binding@),
{
    let mut out = String::new();
    crate::text::push_str(&mut out, "/media/delivery/");
    crate::text::push_str(&mut out, token);
    crate::text::push_str(&mut out, "/");
    crate::text::push_str(&mut out, binding.session_id.as_str());
    crate::text::push_str(&mut out, "/");
    crate::text::push_str(&mut out, binding.item_id.as_str());
    crate::text::push_str(&mut out, "/");
    let a = decimal_string(binding.item_revision);
    crate::text::push_str(&mut out, a.as_str());
    crate::text::push_str(&mut out, "/");
    let b = decimal_string(binding.media_generation);
    crate::text::push_str(&mut out, b.as_str());
    crate::text::push_str(&mut out, "/");
    let c = decimal_string(binding.display_generation);
    crate::text::push_str(&mut out, c.as_str());
    crate::text::push_str(&mut out, "/");
    crate::text::push_str(&mut out, binding.group_id.as_str());
    assert(out@ =~= delivery_path_spec(token@, binding@));
    out
}

/// The `n`-th `/`-separated field of a path (the first is before the first
/// `/`), as `str::split('/').nth(n)` gives it.
#[verifier::opaque]
pub open spec fn path_field(s: Seq<char>, n: nat) -> Option<Seq<char>>
    decreases n,
{
    if !s.contains('/') {
        if n == 0 {
            Some(s)
        } else {
            None
        }
    } else {
        let i = choose|i: int| 0 <= i < s.len() && s[i] == '/' && forall|j: int| 0 <= j < i ==> s[j] != '/';
        if n == 0 {
            Some(s.take(i))
        } else {
            path_field(s.skip(i + 1), (n - 1) as nat)
        }
    }
}

/// A cancellation signal shared by every clone: once cancelled through
/// one, all of them report it.
#[derive(Clone)]
pub struct DeliveryCancellation {
    flag: std::sync::Arc<std::sync::atomic::AtomicBool>,
}

impl DeliveryCancellation {
    /// A fresh flag, not cancelled. The flag is a std `AtomicBool` that every
    /// clone shares, whose value no specification here can follow, so
    /// nothing is stated of it.
    pub fn new() -> (r: Self) {
        DeliveryCancellation {
            flag: std::sync::Arc::new(std::sync::atomic::AtomicBool::new(false)),
        }
    }

    pub fn cancel(&self) {
        self.flag.store(true, std::sync::atomic::Ordering::Release)
    }

    /// Whether any holder has cancelled. Another holder may cancel at any
    /// time, so nothing is stated of the answer.
    pub fn is_cancelled(&self) -> (r: bool) {
        self.flag.load(std::sync::atomic::Ordering::Acquire)
    }
}

} // verus!
