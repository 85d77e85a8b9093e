//! Media capabilities: opaque, short-lived tokens, each bound to one
//! session, item revision and resource, that stand for an upstream
//! resource kept on the server. The store is bounded: it drops what has
//! expired and then the oldest capabilities to make room.

use crate::delivery::{
    headers_outcome, headers_view, pairs_view, public_headers_from, HeaderView, StreamProtocol, UpstreamResource,
};
use crate::gateway::{stream_path, stream_path_spec, Binding, BindingView, GatewayError, SubtitleTrackView};
use crate::ids::{is_opaque_token, new_opaque_token, now_ms};
use crate::playback::str_eq;
use crate::security::{eq_ignore_ascii_case, lower_eq, EgressScope, UrlParts, UrlView};
use vstd::prelude::*;

verus! {

/// Why a capability is not served.
#[derive(Clone, Copy, Debug, PartialEq, Eq, Structural)]
pub enum CapabilityError {
    NotFound,
    Expired,
    BindingMismatch,
}

/// One issued capability.
pub struct CapabilityRecord {
    pub token: String,
    pub binding: Binding,
    pub resource: UpstreamResource,
    pub expires_at_ms: u64,
    pub created_seq: u64,
}

pub struct CapabilityView {
    pub token: Seq<char>,
    pub binding: BindingView,
    pub url: UrlView,
    pub protocol: StreamProtocol,
    pub public_headers: Seq<HeaderView>,
    pub secret_header_count: nat,
    pub scope: EgressScope,
    pub expires_at_ms: u64,
    pub created_seq: u64,
}

impl View for CapabilityRecord {
    type V = CapabilityView;

    open spec fn view(&self) -> CapabilityView {
        CapabilityView {
            token: self.token@,
            binding: self.binding@,
            url: self.resource.url@,
            protocol: self.resource.protocol,
            public_headers: headers_view(self.resource.public_headers@),
            secret_header_count: self.resource.secret_headers@.len(),
            scope: self.resource.egress_scope,
            expires_at_ms: self.expires_at_ms,
            created_seq: self.created_seq,
        }
    }
}

pub open spec fn caps_view(s: Seq<CapabilityRecord>) -> Seq<CapabilityView> {
    s.map_values(|r: CapabilityRecord| r@)
}

/// `a` was issued before `b`, under another token.
pub open spec fn issued_before(a: CapabilityView, b: CapabilityView) -> bool {
    a.created_seq < b.created_seq && a.token != b.token
}

pub open spec fn in_issue_order(s: Seq<CapabilityView>) -> bool {
    forall|i: int, j: int| 0 <= i < j < s.len() ==> issued_before(#[trigger] s[i], #[trigger] s[j])
}

/// The capabilities of `s` still live at `now`, in order.
pub open spec fn live_caps(s: Seq<CapabilityView>, now: u64) -> Seq<CapabilityView>
    decreases s.len(),
{
    if s.len() == 0 {
        s
    } else {
        let rest = live_caps(s.drop_last(), now);
        if s.last().expires_at_ms > now {
            rest.push(s.last())
        } else {
            rest
        }
    }
}

/// The store before an issue at `now` with room for `max`: what has
/// expired is dropped, then the oldest until there is room for one more.
pub open spec fn caps_retained(s: Seq<CapabilityView>, now: u64, max: nat) -> Seq<CapabilityView> {
    let l = live_caps(s, now);
    if l.len() >= max {
        l.skip(l.len() - max + 1)
    } else {
        l
    }
}

pub open spec fn cap_index(s: Seq<CapabilityView>, token: Seq<char>) -> Option<int> {
    if exists|i: int| 0 <= i < s.len() && #[trigger] s[i].token == token {
        Some(choose|i: int| 0 <= i < s.len() && #[trigger] s[i].token == token)
    } else {
        None
    }
}

pub open spec fn caps_without(s: Seq<CapabilityView>, token: Seq<char>) -> Seq<CapabilityView> {
    match cap_index(s, token) {
        Some(i) => s.remove(i),
        None => s,
    }
}

proof fn lemma_live_caps(s: Seq<CapabilityView>, now: u64)
    requires
        in_issue_order(s),
    ensures
        in_issue_order(live_caps(s, now)),
        forall|x: CapabilityView| #[trigger] live_caps(s, now).contains(x) ==> s.contains(x),
    decreases s.len(),
{
    if s.len() > 0 {
        let d = s.drop_last();
        assert(in_issue_order(d)) by {
            assert forall|i: int, j: int| 0 <= i < j < d.len() implies issued_before(
                #[trigger] d[i],
                #[trigger] d[j],
            ) by {
                assert(d[i] == s[i] && d[j] == s[j]);
            }
        }
        lemma_live_caps(d, now);
        let rest = live_caps(d, now);
        assert forall|x: CapabilityView| #[trigger] live_caps(s, now).contains(x) implies s.contains(x) by {
            let k = choose|k: int| 0 <= k < live_caps(s, now).len() && live_caps(s, now)[k] == x;
            if k < rest.len() {
                assert(rest[k] == x);
                assert(rest.contains(x));
                let m = choose|m: int| 0 <= m < d.len() && d[m] == x;
                assert(s[m] == x);
            } else {
                assert(s[s.len() - 1] == x);
            }
        }
        if s.last().expires_at_ms > now {
            let out = rest.push(s.last());
            assert forall|i: int, j: int| 0 <= i < j < out.len() implies issued_before(
                #[trigger] out[i],
                #[trigger] out[j],
            ) by {
                if j == out.len() - 1 {
                    assert(out[i] == rest[i]);
                    assert(rest.contains(rest[i]));
                    let m = choose|m: int| 0 <= m < d.len() && d[m] == rest[i];
                    assert(s[m] == d[m]);
                    assert(issued_before(s[m], s[s.len() - 1]));
                } else {
                    assert(out[i] == rest[i] && out[j] == rest[j]);
                }
            }
        }
    }
}

proof fn lemma_caps_retained(s: Seq<CapabilityView>, now: u64, max: nat)
    requires
        in_issue_order(s),
        max > 0,
    ensures
        in_issue_order(caps_retained(s, now, max)),
        forall|x: CapabilityView| #[trigger] caps_retained(s, now, max).contains(x) ==> s.contains(x),
{
    lemma_live_caps(s, now);
    let l = live_caps(s, now);
    let e = if l.len() >= max { l.len() - max + 1 } else { 0 };
    let t = caps_retained(s, now, max);
    assert(t == l.skip(e));
    assert forall|i: int, j: int| 0 <= i < j < t.len() implies issued_before(
        #[trigger] t[i],
        #[trigger] t[j],
    ) by {
        assert(t[i] == l[i + e] && t[j] == l[j + e]);
    }
    assert forall|x: CapabilityView| #[trigger] t.contains(x) implies s.contains(x) by {
        let k = choose|k: int| 0 <= k < t.len() && t[k] == x;
        assert(l[k + e] == x);
        assert(l.contains(x));
    }
}

/// The bounded store of issued capabilities.
pub struct CapabilityStore {
    records: Vec<CapabilityRecord>,
    max_entries: usize,
    sequence: u64,
}

pub struct StoreView {
    pub records: Seq<CapabilityView>,
    pub max_entries: usize,
    pub sequence: u64,
}

impl View for CapabilityStore {
    type V = StoreView;

    closed spec fn view(&self) -> StoreView {
        StoreView {
            records: caps_view(self.records@),
            max_entries: self.max_entries,
            sequence: self.sequence,
        }
    }
}

/// The outcome of presenting `token` with `binding` at `now`.
pub open spec fn check_outcome(s: Seq<CapabilityView>, token: Seq<char>, binding: BindingView, now: u64) -> (
    Result<(), CapabilityError>,
    Seq<CapabilityView>,
) {
    match cap_index(s, token) {
        None => (Err(CapabilityError::NotFound), s),
        Some(i) => if s[i].expires_at_ms <= now {
            (Err(CapabilityError::Expired), s.remove(i))
        } else if s[i].binding != binding {
            (Err(CapabilityError::BindingMismatch), s)
        } else {
            (Ok(()), s)
        },
    }
}

impl CapabilityStore {
    pub closed spec fn wf(&self) -> bool {
        &&& in_issue_order(self@.records)
        &&& forall|i: int| 0 <= i < self@.records.len() ==> (#[trigger] self@.records[i]).created_seq
            < self@.sequence
        &&& 0 < self@.max_entries
        &&& self@.records.len() <= self@.max_entries
    }

    /// An empty store holding at most `max_entries` capabilities.
    pub fn new(max_entries: usize) -> (r: Self)
        requires
            max_entries > 0,
        ensures
            r.wf(),
            r@.records == Seq::<CapabilityView>::empty(),
            r@.max_entries == max_entries,
            r@.sequence == 1,
    {
        let r = CapabilityStore { records: Vec::new(), max_entries, sequence: 1 };
        assert(r@.records =~= Seq::<CapabilityView>::empty());
        r
    }

    pub fn len(&self) -> (r: usize)
        ensures
            r == self@.records.len(),
    {
        self.records.len()
    }

    pub fn max_entries(&self) -> (r: usize)
        ensures
            r == self@.max_entries,
    {
        self.max_entries
    }

    pub fn sequence_exhausted(&self) -> (r: bool)
        ensures
            r == (self@.sequence == u64::MAX),
    {
        self.sequence == u64::MAX
    }

    /// Takes the next sequence number for a manifest child's resource id.
    pub fn take_sequence(&mut self) -> (r: u64)
        requires
            old(self).wf(),
            old(self)@.sequence < u64::MAX,
        ensures
            final(self).wf(),
            r == old(self)@.sequence,
            final(self)@ == (StoreView { sequence: (old(self)@.sequence + 1) as u64, ..old(self)@ }),
    {
        let r = self.sequence;
        self.sequence = self.sequence + 1;
        r
    }

    fn find(&self, token: &str) -> (r: Option<usize>)
        requires
            self.wf(),
        ensures
            match r {
                Some(i) => cap_index(self@.records, token@) == Some(i as int) && i
                    < self@.records.len(),
                None => cap_index(self@.records, token@) is None,
            },
    {
        let ghost s = self@.records;
        let mut i: usize = 0;
        while i < self.records.len()
            invariant
                i <= s.len(),
                s == self@.records,
                self.wf(),
                forall|k: int| 0 <= k < i ==> #[trigger] s[k].token != token@,
            decreases s.len() - i,
        {
            assert(s[i as int] == self.records@[i as int]@);
            if str_eq(self.records[i].token.as_str(), token) {
                assert(s[i as int].token == token@);
                proof {
                    let w = choose|k: int| 0 <= k < s.len() && #[trigger] s[k].token == token@;
                    if w < i {
                        assert(s[w].token != token@);
                    } else if w > i {
                        assert(issued_before(s[i as int], s[w]));
                    }
                }
                return Some(i);
            }
            i = i + 1;
        }
        None
    }

    proof fn lemma_remove(s: Seq<CapabilityView>, i: int)
        requires
            in_issue_order(s),
            0 <= i < s.len(),
        ensures
            in_issue_order(s.remove(i)),
            forall|x: CapabilityView| #[trigger] s.remove(i).contains(x) ==> s.contains(x),
    {
        let t = s.remove(i);
        assert forall|a: int, b: int| 0 <= a < b < t.len() implies issued_before(
            #[trigger] t[a],
            #[trigger] t[b],
        ) by {
            let a2 = if a < i { a } else { a + 1 };
            let b2 = if b < i { b } else { b + 1 };
            assert(t[a] == s[a2] && t[b] == s[b2]);
        }
        assert forall|x: CapabilityView| #[trigger] t.contains(x) implies s.contains(x) by {
            let k = choose|k: int| 0 <= k < t.len() && t[k] == x;
            if k < i {
                assert(s[k] == x);
            } else {
                assert(s[k + 1] == x);
            }
        }
    }

    /// Removes the capability `token`, if there is one.
    pub fn revoke(&mut self, token: &str)
        requires
            old(self).wf(),
        ensures
            final(self).wf(),
            final(self)@ == (StoreView {
                records: caps_without(old(self)@.records, token@),
                ..old(self)@
            }),
    {
        let ghost s = self@.records;
        match self.find(token) {
            None => {},
            Some(i) => {
                proof {
                    Self::lemma_remove(s, i as int);
                }
                self.records.remove(i);
                assert(self@.records =~= s.remove(i as int));
                proof {
                    assert forall|k: int| 0 <= k < self@.records.len() implies (
                    #[trigger] self@.records[k]).created_seq < self@.sequence by {
                        assert(s.remove(i as int).contains(self@.records[k]));
                    }
                }
            },
        }
    }

    /// Presents `token` with `binding` at `now`: unknown tokens are not
    /// found, an expired capability is removed and refused, one bound to
    /// another binding is refused.
    pub fn check_at(&mut self, token: &str, binding: &Binding, now: u64) -> (r: Result<
        (),
        CapabilityError,
    >)
        requires
            old(self).wf(),
        ensures
            final(self).wf(),
            (r, final(self)@.records) == check_outcome(old(self)@.records, token@, binding@, now),
            final(self)@.max_entries == old(self)@.max_entries,
            final(self)@.sequence == old(self)@.sequence,
    {
        let ghost s = self@.records;
        match self.find(token) {
            None => Err(CapabilityError::NotFound),
            Some(i) => {
                assert(s[i as int] == self.records@[i as int]@);
                if self.records[i].expires_at_ms <= now {
                    proof {
                        Self::lemma_remove(s, i as int);
                    }
                    self.records.remove(i);
                    assert(self@.records =~= s.remove(i as int));
                    proof {
                        assert forall|k: int| 0 <= k < self@.records.len() implies (
                        #[trigger] self@.records[k]).created_seq < self@.sequence by {
                            assert(s.remove(i as int).contains(self@.records[k]));
                        }
                    }
                    Err(CapabilityError::Expired)
                } else if !self.records[i].binding.same_as(binding) {
                    Err(CapabilityError::BindingMismatch)
                } else {
                    Ok(())
                }
            },
        }
    }

    /// The record issued under `token`.
    pub fn record(&self, token: &str) -> (r: Option<&CapabilityRecord>)
        requires
            self.wf(),
        ensures
            match r {
                Some(rec) => cap_index(self@.records, token@) is Some && rec@ == self@.records[cap_index(
                    self@.records,
                    token@,
                )->0],
                None => cap_index(self@.records, token@) is None,
            },
    {
        match self.find(token) {
            None => None,
            Some(i) => {
                assert(self@.records[i as int] == self.records@[i as int]@);
                Some(&self.records[i])
            },
        }
    }

    /// Issues a capability under `token` at `now` for `ttl_ms`: the store
    /// first drops what has expired and the oldest entries to make room;
    /// a capability already under the same token is replaced.
    pub fn issue_at(
        &mut self,
        binding: Binding,
        resource: UpstreamResource,
        ttl_ms: u64,
        now: u64,
        token: String,
    )
        requires
            old(self).wf(),
            old(self)@.sequence < u64::MAX,
            now + ttl_ms <= u64::MAX,
        ensures
            final(self).wf(),
            ({
                let s1 = caps_retained(old(self)@.records, now, old(self)@.max_entries as nat);
                let rec = CapabilityView {
                    token: token@,
                    binding: binding@,
                    url: resource.url@,
                    protocol: resource.protocol,
                    public_headers: headers_view(resource.public_headers@),
                    secret_header_count: resource.secret_headers@.len(),
                    scope: resource.egress_scope,
                    expires_at_ms: (now + ttl_ms) as u64,
                    created_seq: old(self)@.sequence,
                };
                final(self)@ == StoreView {
                    records: caps_without(s1, token@).push(rec),
                    max_entries: old(self)@.max_entries,
                    sequence: (old(self)@.sequence + 1) as u64,
                }
            }),
    {
        let ghost s0 = self@.records;
        let ghost max = self.max_entries as nat;
        let seq = self.sequence;
        // Drop what has expired, keeping publication order.
        let mut records: Vec<CapabilityRecord> = Vec::new();
        std::mem::swap(&mut records, &mut self.records);
        let mut kept: Vec<CapabilityRecord> = Vec::new();
        let ghost mut i: int = 0;
        assert(s0.take(0) =~= Seq::<CapabilityView>::empty());
        assert(caps_view(records@) =~= s0.skip(0));
        assert(caps_view(kept@) =~= live_caps(s0.take(0), now));
        while records.len() > 0
            invariant
                0 <= i <= s0.len(),
                caps_view(records@) == s0.skip(i),
                caps_view(kept@) == live_caps(s0.take(i), now),
            decreases records@.len(),
        {
            let ghost before_kept = caps_view(kept@);
            let ghost before_recs = caps_view(records@);
            assert(before_recs.len() == records@.len());
            assert(before_recs[0] == records@[0]@);
            proof {
                assert(s0.skip(i)[0] == s0[i]);
                assert(s0.take(i + 1).drop_last() =~= s0.take(i));
                assert(s0.take(i + 1).last() == s0[i]);
            }
            let r = records.remove(0);
            if r.expires_at_ms > now {
                kept.push(r);
                assert(caps_view(kept@) =~= before_kept.push(s0[i]));
            }
            proof {
                assert(caps_view(records@) =~= before_recs.subrange(1, before_recs.len() as int));
                assert(caps_view(records@) =~= s0.skip(i + 1));
                i = i + 1;
            }
        }
        assert(s0.take(i) =~= s0);
        let ghost l = live_caps(s0, now);
        let ghost mut e: int = 0;
        assert(l.skip(0) =~= l);
        while kept.len() >= self.max_entries
            invariant
                0 <= e <= l.len(),
                caps_view(kept@) == l.skip(e),
                l.len() >= self.max_entries ==> e <= l.len() - self.max_entries + 1,
                l.len() < self.max_entries ==> e == 0,
                0 < self.max_entries,
                self.max_entries as nat == max,
            decreases kept@.len(),
        {
            let ghost before_kept = caps_view(kept@);
            assert(before_kept.len() == kept@.len());
            kept.remove(0);
            proof {
                assert(caps_view(kept@) =~= before_kept.subrange(1, before_kept.len() as int));
                assert(caps_view(kept@) =~= l.skip(e + 1));
                e = e + 1;
            }
        }
        self.records = kept;
        proof {
            lemma_caps_retained(s0, now, max);
            assert(self@.records =~= caps_retained(s0, now, max));
        }
        let ghost s1 = self@.records;
        proof {
            assert forall|k: int| 0 <= k < s1.len() implies (#[trigger] s1[k]).created_seq < seq by {
                assert(caps_retained(s0, now, max).contains(s1[k]));
            }
        }
        match self.find(token.as_str()) {
            Some(j) => {
                proof {
                    Self::lemma_remove(s1, j as int);
                }
                self.records.remove(j);
                assert(self@.records =~= s1.remove(j as int));
            },
            None => {},
        }
        let ghost s2 = self@.records;
        assert(s2 == caps_without(s1, token@));
        proof {
            assert forall|k: int| 0 <= k < s2.len() implies #[trigger] s2[k].token != token@ by {
                match cap_index(s1, token@) {
                    None => {
                        assert(s2[k] == s1[k]);
                    },
                    Some(j) => {
                        let k2 = if k < j { k } else { k + 1 };
                        assert(s2[k] == s1[k2]);
                        assert(s1[j].token == token@);
                        if k2 < j {
                            assert(issued_before(s1[k2], s1[j]));
                        } else {
                            assert(issued_before(s1[j], s1[k2]));
                        }
                    },
                }
            }
            assert forall|k: int| 0 <= k < s2.len() implies (#[trigger] s2[k]).created_seq < seq by {
                match cap_index(s1, token@) {
                    None => {
                        assert(s2[k] == s1[k]);
                    },
                    Some(j) => {
                        assert(s1.remove(j).contains(s2[k]));
                        let m = choose|m: int| 0 <= m < s1.len() && s1[m] == s2[k];
                        assert(s1[m].created_seq < seq);
                    },
                }
            }
        }
        let rec = CapabilityRecord {
            token,
            binding,
            resource,
            expires_at_ms: now + ttl_ms,
            created_seq: seq,
        };
        self.records.push(rec);
        self.sequence = seq + 1;
        proof {
            let s3 = self@.records;
            assert(s3 =~= s2.push(rec@));
            assert forall|a: int, b: int| 0 <= a < b < s3.len() implies issued_before(
                #[trigger] s3[a],
                #[trigger] s3[b],
            ) by {
                if b == s2.len() {
                    assert(s3[a] == s2[a]);
                } else {
                    assert(s3[a] == s2[a] && s3[b] == s2[b]);
                }
            }
        }
    }
}

/// Issues a capability under `token` at `now` and gives its same-origin
/// path; `None` (and no change) where the store's sequence or the expiry
/// time would overflow.
pub fn issue_path_at(
    store: &mut CapabilityStore,
    binding: Binding,
    resource: UpstreamResource,
    ttl_ms: u64,
    now: u64,
    token: String,
) -> (r: Option<String>)
    requires
        old(store).wf(),
    ensures
        final(store).wf(),
        (old(store)@.sequence == u64::MAX || now + ttl_ms > u64::MAX) <==> r is None,
        r is None ==> final(store)@ == old(store)@,
        r is Some ==> r->0@ == stream_path_spec(token@, binding@) && final(store)@.records.len() > 0
            && final(store)@.records.last().token == token@ && final(store)@.records.last().binding
            == binding@ && final(store)@.records.last().expires_at_ms == now + ttl_ms
            && final(store)@.records.last().url == resource.url@,
{
    if store.sequence_exhausted() || ttl_ms > u64::MAX - now {
        return None;
    }
    let path = stream_path(token.as_str(), &binding);
    let ghost t = token@;
    store.issue_at(binding, resource, ttl_ms, now, token);
    Some(path)
}

/// What issuing a capability at `now` under the opaque `token` does: it
/// fails (and changes nothing) exactly where the sequence or the expiry
/// would overflow, and otherwise records the capability last and gives its
/// path.
pub open spec fn issued_at(
    before: StoreView,
    after: StoreView,
    r: Option<String>,
    binding: BindingView,
    url: UrlView,
    ttl_ms: u64,
    now: u64,
    token: Seq<char>,
) -> bool {
    &&& is_opaque_token(token)
    &&& ((before.sequence == u64::MAX || now + ttl_ms > u64::MAX) <==> r is None)
    &&& (r is None ==> after == before)
    &&& (r is Some ==> r->0@ == stream_path_spec(token, binding) && after.records.len() > 0
        && after.records.last().token == token && after.records.last().binding == binding
        && after.records.last().expires_at_ms == now + ttl_ms && after.records.last().url == url)
}

/// Issues a capability for `resource` bound to `binding`, now, under a
/// fresh random token, and gives its same-origin path.
pub fn issue_path(
    store: &mut CapabilityStore,
    binding: Binding,
    resource: UpstreamResource,
    ttl_ms: u64,
) -> (r: Option<String>)
    requires
        old(store).wf(),
    ensures
        final(store).wf(),
        exists|now: u64, token: Seq<char>|
            #[trigger] issued_at(old(store)@, final(store)@, r, binding@, resource.url@, ttl_ms, now, token),
{
    let now = now_ms();
    let token = new_opaque_token();
    let ghost t = token@;
    let ghost b = binding@;
    let ghost u = resource.url@;
    let r = issue_path_at(store, binding, resource, ttl_ms, now, token);
    assert(issued_at(old(store)@, store@, r, b, u, ttl_ms, now, t));
    r
}

// ---------------------------------------------------------------------------
// Subtitles
// ---------------------------------------------------------------------------

/// A subtitle track as a site plugin resolved it.
pub struct ResolvedSubtitle {
    pub id: String,
    pub url: UrlParts,
    pub content_type: String,
    pub language: Option<String>,
    pub label: Option<String>,
    pub public_headers: Vec<(String, String)>,
    pub upstream_access_ref: Option<String>,
}

/// Why a subtitle is refused, if it is: not an http(s) URL, not WebVTT, or
/// a header that carries secret material or is not acceptable.
pub open spec fn subtitle_fault(url: UrlView, content_type: Seq<char>, pairs: Seq<(Seq<char>, Seq<char>)>) -> Option<
    GatewayError,
> {
    if !(url.scheme == "http"@ || url.scheme == "https"@) {
        Some(GatewayError::InvalidSubtitle)
    } else if !eq_ignore_ascii_case(content_type, "text/vtt"@) {
        Some(GatewayError::UnsupportedSubtitleContentType)
    } else {
        match headers_outcome(pairs, pairs.len()) {
            Err(e) => Some(e),
            Ok(_) => None,
        }
    }
}

/// Binds a subtitle to a capability like any media resource: the browser
/// receives metadata and the opaque same-origin path only.
pub fn subtitle_track_view(
    store: &mut CapabilityStore,
    subtitle: ResolvedSubtitle,
    binding: Binding,
    scope: EgressScope,
    ttl_ms: u64,
) -> (r: Result<Option<SubtitleTrackView>, GatewayError>)
    requires
        old(store).wf(),
    ensures
        final(store).wf(),
        match subtitle_fault(subtitle.url@, subtitle.content_type@, pairs_view(subtitle.public_headers@)) {
            Some(e) => r == Err::<Option<SubtitleTrackView>, GatewayError>(e) && final(store)@
                == old(store)@,
            None => r is Ok,
        },
        r matches Ok(Some(v)) ==> v.id@ == subtitle.id@ && v.format@ == "webvtt"@ && v.language
            == subtitle.language && v.label == subtitle.label && final(store)@.records.len() > 0
            && v.gateway_path@ == stream_path_spec(final(store)@.records.last().token, binding@),
{
    proof {
        reveal_strlit("http");
        reveal_strlit("https");
    }
    if !(str_eq(subtitle.url.scheme(), "http") || str_eq(subtitle.url.scheme(), "https")) {
        return Err(GatewayError::InvalidSubtitle);
    }
    if !lower_eq(subtitle.content_type.as_str(), "text/vtt") {
        return Err(GatewayError::UnsupportedSubtitleContentType);
    }
    let public_headers = match public_headers_from(&subtitle.public_headers) {
        Err(e) => return Err(e),
        Ok(h) => h,
    };
    let resource = UpstreamResource {
        url: subtitle.url,
        protocol: StreamProtocol::HttpFile,
        public_headers,
        secret_headers: Vec::new(),
        egress_scope: scope,
    };
    let ghost b = binding@;
    match issue_path(store, binding, resource, ttl_ms) {
        None => Ok(None),
        Some(gateway_path) => Ok(
            Some(
                SubtitleTrackView {
                    id: subtitle.id,
                    language: subtitle.language,
                    label: subtitle.label,
                    format: "webvtt",
                    gateway_path,
                },
            ),
        ),
    }
}

} // verus!

verus! {

/// A freshly issued capability is served when presented with its own
/// binding before it expires, refused with any other binding, and refused
/// (and removed) once expired.
pub proof fn law_issued_capability_is_bound_and_short_lived(
    s: Seq<CapabilityView>,
    rec: CapabilityView,
    now: u64,
    later: u64,
    other: BindingView,
)
    requires
        forall|k: int| 0 <= k < s.len() ==> #[trigger] s[k].token != rec.token,
        rec.expires_at_ms > now,
        later >= rec.expires_at_ms,
        other != rec.binding,
    ensures
        check_outcome(s.push(rec), rec.token, rec.binding, now).0 == Ok::<(), CapabilityError>(()),
        check_outcome(s.push(rec), rec.token, other, now).0 == Err::<(), CapabilityError>(
            CapabilityError::BindingMismatch,
        ),
        check_outcome(s.push(rec), rec.token, rec.binding, later) == (
            Err::<(), CapabilityError>(CapabilityError::Expired),
            s,
        ),
{
    let t = s.push(rec);
    assert(t[s.len() as int] == rec);
    assert(exists|i: int| 0 <= i < t.len() && #[trigger] t[i].token == rec.token);
    let w = choose|i: int| 0 <= i < t.len() && #[trigger] t[i].token == rec.token;
    if w < s.len() {
        assert(t[w] == s[w]);
    }
    assert(cap_index(t, rec.token) == Some(s.len() as int));
    assert(t.remove(s.len() as int) =~= s);
}

} // verus!
