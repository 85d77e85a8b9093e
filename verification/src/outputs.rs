//! The delivery supervisor's state: the bounded count of running
//! deliveries, and the short-lived published outputs, each bound to the
//! delivery binding it was made for. Outputs expire, the oldest is evicted
//! first when the registry is full, and every removed output's workspace is
//! handed back for cleanup.

use crate::media::{
    delivery_path, delivery_path_spec, path_field, DeliveryBinding, DeliveryBindingView,
    DeliveryError, DeliveryResult, DELIVERY_CONTRACT_VERSION, MAX_CONCURRENT_DELIVERIES,
    MAX_DELIVERY_OUTPUTS,
};
use crate::delivery::{request_outcome, validate_request, DeliveryRequest, RequestView};
use crate::playback::str_eq;
use crate::security::EgressPolicy;
use crate::text::{decimal, decimal_string, push_str};
use vstd::prelude::*;

verus! {

/// One published output: its token, the binding it serves, where the file
/// and its workspace lie, when it expires (milliseconds) and the sequence
/// number it was published under.
pub struct OutputRecord {
    pub token: String,
    pub binding: DeliveryBinding,
    pub output_path: String,
    pub workspace: String,
    pub expires_at_ms: u64,
    pub created_seq: u64,
}

pub struct OutputView {
    pub token: Seq<char>,
    pub binding: DeliveryBindingView,
    pub output_path: Seq<char>,
    pub workspace: Seq<char>,
    pub expires_at_ms: u64,
    pub created_seq: u64,
}

impl View for OutputRecord {
    type V = OutputView;

    open spec fn view(&self) -> OutputView {
        OutputView {
            token: self.token@,
            binding: self.binding@,
            output_path: self.output_path@,
            workspace: self.workspace@,
            expires_at_ms: self.expires_at_ms,
            created_seq: self.created_seq,
        }
    }
}

pub open spec fn outputs_view(s: Seq<OutputRecord>) -> Seq<OutputView> {
    s.map_values(|r: OutputRecord| r@)
}

pub open spec fn workspaces(s: Seq<OutputView>) -> Seq<Seq<char>> {
    s.map_values(|r: OutputView| r.workspace)
}

/// `a` was published before `b`, under another token.
pub open spec fn ordered_pair(a: OutputView, b: OutputView) -> bool {
    a.created_seq < b.created_seq && a.token != b.token
}

/// Publication order with distinct tokens.
pub open spec fn in_publication_order(s: Seq<OutputView>) -> bool {
    forall|i: int, j: int| 0 <= i < j < s.len() ==> ordered_pair(#[trigger] s[i], #[trigger] s[j])
}

/// The outputs of `s` that are live at `now`, in order.
pub open spec fn live_outputs(s: Seq<OutputView>, now: u64) -> Seq<OutputView>
    decreases s.len(),
{
    if s.len() == 0 {
        s
    } else {
        let rest = live_outputs(s.drop_last(), now);
        if s.last().expires_at_ms > now {
            rest.push(s.last())
        } else {
            rest
        }
    }
}

/// The outputs of `s` that have expired at `now`, in order.
pub open spec fn expired_outputs(s: Seq<OutputView>, now: u64) -> Seq<OutputView>
    decreases s.len(),
{
    if s.len() == 0 {
        s
    } else {
        let rest = expired_outputs(s.drop_last(), now);
        if s.last().expires_at_ms > now {
            rest
        } else {
            rest.push(s.last())
        }
    }
}

/// How many of the oldest outputs of `l` must go to leave room for one
/// more.
pub open spec fn overflow(l: Seq<OutputView>) -> int {
    if l.len() >= MAX_DELIVERY_OUTPUTS {
        l.len() - MAX_DELIVERY_OUTPUTS + 1
    } else {
        0
    }
}

/// The registry after dropping what has expired at `now` and then the
/// oldest outputs until there is room for one more.
pub open spec fn retained(s: Seq<OutputView>, now: u64) -> Seq<OutputView> {
    let l = live_outputs(s, now);
    l.skip(overflow(l))
}

/// What that drops: the expired outputs, then the evicted ones.
pub open spec fn dropped(s: Seq<OutputView>, now: u64) -> Seq<OutputView> {
    let l = live_outputs(s, now);
    expired_outputs(s, now) + l.take(overflow(l))
}

proof fn lemma_live_sub(s: Seq<OutputView>, now: u64)
    requires
        in_publication_order(s),
    ensures
        in_publication_order(live_outputs(s, now)),
        forall|x: OutputView| #[trigger] live_outputs(s, now).contains(x) ==> s.contains(x),
        forall|x: OutputView| #[trigger] live_outputs(s, now).contains(x) ==> x.expires_at_ms > now,
    decreases s.len(),
{
    if s.len() > 0 {
        let d = s.drop_last();
        assert(in_publication_order(d)) by {
            assert forall|i: int, j: int| 0 <= i < j < d.len() implies ordered_pair(
                #[trigger] d[i],
                #[trigger] d[j],
            ) by {
                assert(d[i] == s[i] && d[j] == s[j]);
            }
        }
        lemma_live_sub(d, now);
        let rest = live_outputs(d, now);
        assert forall|x: OutputView| #[trigger] live_outputs(s, now).contains(x) implies s.contains(x)
            && x.expires_at_ms > now by {
            if s.last().expires_at_ms > now {
                let k = choose|k: int| 0 <= k < live_outputs(s, now).len() && live_outputs(s, now)[k] == x;
                if k < rest.len() {
                    assert(rest[k] == x);
                    assert(rest.contains(x));
                    let m = choose|m: int| 0 <= m < d.len() && d[m] == x;
                    assert(s[m] == x);
                } else {
                    assert(s[s.len() - 1] == x);
                }
            } else {
                assert(rest.contains(x));
                let m = choose|m: int| 0 <= m < d.len() && d[m] == x;
                assert(s[m] == x);
            }
        }
        if s.last().expires_at_ms > now {
            let out = rest.push(s.last());
            assert forall|i: int, j: int| 0 <= i < j < out.len() implies ordered_pair(
                #[trigger] out[i],
                #[trigger] out[j],
            ) by {
                if j == out.len() - 1 {
                    assert(out[i] == rest[i]);
                    assert(rest.contains(rest[i]));
                    let m = choose|m: int| 0 <= m < d.len() && d[m] == rest[i];
                    assert(s[m] == d[m]);
                    assert(ordered_pair(s[m], s[s.len() - 1]));
                } else {
                    assert(out[i] == rest[i] && out[j] == rest[j]);
                }
            }
        }
    }
}

proof fn lemma_skip_order(l: Seq<OutputView>, k: int)
    requires
        in_publication_order(l),
        0 <= k <= l.len(),
    ensures
        in_publication_order(l.skip(k)),
{
    let t = l.skip(k);
    assert forall|i: int, j: int| 0 <= i < j < t.len() implies ordered_pair(
        #[trigger] t[i],
        #[trigger] t[j],
    ) by {
        assert(t[i] == l[i + k] && t[j] == l[j + k]);
    }
}

/// The fields of `s` from `start` split at the first `/` at or after
/// `start`, found at `p`.
proof fn lemma_field_step(s: Seq<char>, start: int, p: int, m: nat)
    requires
        0 <= start <= p < s.len(),
        s[p] == '/',
        forall|j: int| start <= j < p ==> s[j] != '/',
    ensures
        path_field(s.skip(start), m) == if m == 0 {
            Some(s.subrange(start, p))
        } else {
            path_field(s.skip(p + 1), (m - 1) as nat)
        },
{
    let rest = s.skip(start);
    let q = p - start;
    assert(rest[q] == s[p]);
    assert forall|j: int| 0 <= j < q implies rest[j] != '/' by {
        assert(rest[j] == s[start + j]);
    }
    assert(rest.contains('/'));
    reveal(path_field);
    let w = choose|i: int| 0 <= i < rest.len() && rest[i] == '/' && forall|j: int| 0 <= j < i ==> rest[j] != '/';
    if w < q {
        assert(rest[w] != '/');
    } else if w > q {
        assert(rest[q] != '/');
    }
    assert(rest.take(q) =~= s.subrange(start, p));
    assert(rest.skip(q + 1) =~= s.skip(p + 1));
}

proof fn lemma_field_end(s: Seq<char>, start: int, m: nat)
    requires
        0 <= start <= s.len(),
        forall|j: int| start <= j < s.len() ==> s[j] != '/',
    ensures
        path_field(s.skip(start), m) == if m == 0 {
            Some(s.skip(start))
        } else {
            None::<Seq<char>>
        },
{
    let rest = s.skip(start);
    assert forall|j: int| 0 <= j < rest.len() implies rest[j] != '/' by {
        assert(rest[j] == s[start + j]);
    }
    assert(!rest.contains('/'));
    reveal(path_field);
}

fn string_of_range(v: &Vec<char>, a: usize, b: usize) -> (r: String)
    requires
        a <= b <= v@.len(),
    ensures
        r@ == v@.subrange(a as int, b as int),
{
    let mut out = String::new();
    let mut i: usize = a;
    while i < b
        invariant
            a <= i <= b <= v@.len(),
            out@ == v@.subrange(a as int, i as int),
        decreases b - i,
    {
        crate::text::push_char(&mut out, v[i]);
        assert(out@ =~= v@.subrange(a as int, i + 1));
        i = i + 1;
    }
    out
}

/// The `n`-th `/`-separated field of `s`, as `str::split('/').nth(n)`
/// gives it.
pub fn nth_path_field(s: &str, n: usize) -> (r: Option<String>)
    ensures
        match r {
            Some(f) => path_field(s@, n as nat) == Some(f@),
            None => path_field(s@, n as nat) is None,
        },
{
    let v = crate::text::chars_of(s);
    let mut start: usize = 0;
    let mut k: usize = 0;
    assert(s@.skip(0) =~= s@);
    loop
        invariant
            v@ == s@,
            start <= v@.len(),
            k <= n,
            path_field(s@, n as nat) == path_field(s@.skip(start as int), (n - k) as nat),
        decreases v@.len() - start,
    {
        let mut p: usize = start;
        while p < v.len() && v[p] != '/'
            invariant
                start <= p <= v@.len(),
                v@ == s@,
                forall|j: int| start <= j < p ==> v@[j] != '/',
            decreases v@.len() - p,
        {
            p = p + 1;
        }
        if p == v.len() {
            proof {
                lemma_field_end(s@, start as int, (n - k) as nat);
            }
            if k == n {
                let f = string_of_range(&v, start, p);
                assert(f@ =~= s@.skip(start as int));
                return Some(f);
            }
            return None;
        }
        proof {
            lemma_field_step(s@, start as int, p as int, (n - k) as nat);
        }
        if k == n {
            let f = string_of_range(&v, start, p);
            return Some(f);
        }
        start = p + 1;
        k = k + 1;
    }
}


/// The outcome of the checks before a delivery starts, with
/// `active_deliveries` running.
pub open spec fn begin_outcome(
    request: RequestView,
    now_secs: u64,
    cancelled: bool,
    authority_matches: bool,
    active_deliveries: u64,
) -> Result<(), DeliveryError> {
    match request_outcome(request, now_secs) {
        Err(e) => Err(e),
        Ok(_) => if cancelled {
            Err(DeliveryError::Cancelled)
        } else if !authority_matches {
            Err(DeliveryError::StaleGeneration)
        } else if active_deliveries >= MAX_CONCURRENT_DELIVERIES {
            Err(DeliveryError::ConcurrencyLimitExceeded)
        } else {
            Ok(())
        },
    }
}

/// The outcome of the checks after the remux process finished: a cancelled
/// or no longer current attempt is refused first, then a missing output, an
/// empty or oversized one, and one that finished after the deadline.
pub open spec fn finish_outcome(
    cancelled: bool,
    authority_matches: bool,
    output_bytes: Option<u64>,
    max_output_bytes: u64,
    timed_out: bool,
) -> Result<u64, DeliveryError> {
    if cancelled {
        Err(DeliveryError::Cancelled)
    } else if !authority_matches {
        Err(DeliveryError::StaleGeneration)
    } else {
        match output_bytes {
            None => Err(DeliveryError::OutputUnavailable),
            Some(n) => if n == 0 || n > max_output_bytes {
                Err(DeliveryError::OutputLimitExceeded)
            } else if timed_out {
                Err(DeliveryError::TimedOut)
            } else {
                Ok(n)
            },
        }
    }
}

pub fn check_finished_output(
    cancelled: bool,
    authority_matches: bool,
    output_bytes: Option<u64>,
    max_output_bytes: u64,
    timed_out: bool,
) -> (r: Result<u64, DeliveryError>)
    ensures
        r == finish_outcome(cancelled, authority_matches, output_bytes, max_output_bytes, timed_out),
{
    if cancelled {
        return Err(DeliveryError::Cancelled);
    }
    if !authority_matches {
        return Err(DeliveryError::StaleGeneration);
    }
    match output_bytes {
        None => Err(DeliveryError::OutputUnavailable),
        Some(n) => if n == 0 || n > max_output_bytes {
            Err(DeliveryError::OutputLimitExceeded)
        } else if timed_out {
            Err(DeliveryError::TimedOut)
        } else {
            Ok(n)
        },
    }
}


proof fn lemma_retained_sub(s: Seq<OutputView>, now: u64)
    requires
        in_publication_order(s),
    ensures
        forall|x: OutputView| #[trigger] retained(s, now).contains(x) ==> s.contains(x),
{
    lemma_live_sub(s, now);
    let l = live_outputs(s, now);
    let e = overflow(l);
    assert forall|x: OutputView| #[trigger] retained(s, now).contains(x) implies s.contains(x) by {
        let k = choose|k: int| 0 <= k < l.skip(e).len() && l.skip(e)[k] == x;
        assert(l[k + e] == x);
        assert(l.contains(x));
    }
}

/// The state of the delivery supervisor.
pub struct MediaDeliverySupervisor {
    egress_policy: EgressPolicy,
    outputs: Vec<OutputRecord>,
    sequence: u64,
    active_deliveries: u64,
    ffmpeg_program: String,
    released: Vec<String>,
}

pub struct SupervisorView {
    pub outputs: Seq<OutputView>,
    pub sequence: u64,
    pub active_deliveries: u64,
    pub ffmpeg_program: Seq<char>,
    /// Workspaces of removed outputs, waiting to be deleted.
    pub released: Seq<Seq<char>>,
}

impl View for MediaDeliverySupervisor {
    type V = SupervisorView;

    closed spec fn view(&self) -> SupervisorView {
        SupervisorView {
            outputs: outputs_view(self.outputs@),
            sequence: self.sequence,
            active_deliveries: self.active_deliveries,
            ffmpeg_program: self.ffmpeg_program@,
            released: self.released@.map_values(|w: String| w@),
        }
    }
}

/// The registry is in publication order, its sequence numbers lie below the
/// next one, it has room, and at most the allowed number of deliveries run.
pub open spec fn supervisor_ok(v: SupervisorView) -> bool {
    &&& in_publication_order(v.outputs)
    &&& forall|i: int| 0 <= i < v.outputs.len() ==> (#[trigger] v.outputs[i]).created_seq < v.sequence
    &&& v.outputs.len() <= MAX_DELIVERY_OUTPUTS
    &&& v.active_deliveries <= MAX_CONCURRENT_DELIVERIES
}

/// The index of the output published under `token`, if there is one.
pub open spec fn token_index(s: Seq<OutputView>, token: Seq<char>) -> Option<int> {
    if exists|i: int| 0 <= i < s.len() && #[trigger] s[i].token == token {
        Some(choose|i: int| 0 <= i < s.len() && #[trigger] s[i].token == token)
    } else {
        None
    }
}

/// The registry after removing the output published under `token`.
pub open spec fn without_token(s: Seq<OutputView>, token: Seq<char>) -> Seq<OutputView> {
    match token_index(s, token) {
        Some(i) => s.remove(i),
        None => s,
    }
}

/// The workspaces released by removing the output under `token`.
pub open spec fn released_by_token(s: Seq<OutputView>, token: Seq<char>) -> Seq<Seq<char>> {
    match token_index(s, token) {
        Some(i) => seq![s[i].workspace],
        None => seq![],
    }
}

/// The token an output published under sequence number `seq` gets.
pub open spec fn output_token(seq: u64, suffix: Seq<char>) -> Seq<char> {
    "d"@ + decimal(seq as nat) + "-"@ + suffix
}

proof fn lemma_remove_order(s: Seq<OutputView>, i: int)
    requires
        in_publication_order(s),
        0 <= i < s.len(),
    ensures
        in_publication_order(s.remove(i)),
        forall|x: OutputView| #[trigger] s.remove(i).contains(x) ==> s.contains(x),
{
    let t = s.remove(i);
    assert forall|a: int, b: int| 0 <= a < b < t.len() implies ordered_pair(
        #[trigger] t[a],
        #[trigger] t[b],
    ) by {
        let a2 = if a < i { a } else { a + 1 };
        let b2 = if b < i { b } else { b + 1 };
        assert(t[a] == s[a2] && t[b] == s[b2]);
    }
    assert forall|x: OutputView| #[trigger] t.contains(x) implies s.contains(x) by {
        let k = choose|k: int| 0 <= k < t.len() && t[k] == x;
        if k < i {
            assert(s[k] == x);
        } else {
            assert(s[k + 1] == x);
        }
    }
}

impl MediaDeliverySupervisor {
    pub closed spec fn wf(&self) -> bool {
        &&& supervisor_ok(self@)
        &&& self.egress_policy.wf()
    }

    pub closed spec fn policy(&self) -> EgressPolicy {
        self.egress_policy
    }

    /// A supervisor with no outputs and no running delivery, remuxing with
    /// the `ffmpeg` program.
    pub fn new(egress_policy: EgressPolicy) -> (r: Self)
        requires
            egress_policy.wf(),
        ensures
            r.wf(),
            r.policy() == egress_policy,
            r@.outputs == Seq::<OutputView>::empty(),
            r@.sequence == 1,
            r@.active_deliveries == 0,
            r@.ffmpeg_program == "ffmpeg"@,
            r@.released == Seq::<Seq<char>>::empty(),
    {
        let r = MediaDeliverySupervisor {
            egress_policy,
            outputs: Vec::new(),
            sequence: 1,
            active_deliveries: 0,
            ffmpeg_program: "ffmpeg".to_owned(),
            released: Vec::new(),
        };
        assert(r@.outputs =~= Seq::<OutputView>::empty());
        assert(r@.released =~= Seq::<Seq<char>>::empty());
        r
    }

    pub fn egress_policy(&self) -> (r: &EgressPolicy)
        ensures
            *r == self.policy(),
    {
        &self.egress_policy
    }

    pub fn ffmpeg_program(&self) -> (r: &str)
        ensures
            r@ == self@.ffmpeg_program,
    {
        self.ffmpeg_program.as_str()
    }

    /// Whether the publication sequence has run out.
    pub fn published_sequence_exhausted(&self) -> (r: bool)
        ensures
            r == (self@.sequence == u64::MAX),
    {
        self.sequence == u64::MAX
    }

    /// The number of outputs currently published.
    pub fn published_output_count(&self) -> (r: usize)
        ensures
            r == self@.outputs.len(),
    {
        self.outputs.len()
    }

    /// Takes a delivery slot: refused once the allowed number run.
    pub fn try_acquire_delivery(&mut self) -> (r: Result<(), DeliveryError>)
        requires
            old(self).wf(),
        ensures
            final(self).wf(),
            final(self).policy() == old(self).policy(),
            old(self)@.active_deliveries < MAX_CONCURRENT_DELIVERIES ==> r is Ok && final(self)@
                == (SupervisorView {
                active_deliveries: (old(self)@.active_deliveries + 1) as u64,
                ..old(self)@
            }),
            old(self)@.active_deliveries >= MAX_CONCURRENT_DELIVERIES ==> r == Err::<
                (),
                DeliveryError,
            >(DeliveryError::ConcurrencyLimitExceeded) && final(self)@ == old(self)@,
    {
        if self.active_deliveries >= MAX_CONCURRENT_DELIVERIES {
            return Err(DeliveryError::ConcurrencyLimitExceeded);
        }
        self.active_deliveries = self.active_deliveries + 1;
        Ok(())
    }

    /// Gives a delivery slot back.
    pub fn release_delivery(&mut self)
        requires
            old(self).wf(),
        ensures
            final(self).wf(),
            final(self).policy() == old(self).policy(),
            final(self)@ == (SupervisorView {
                active_deliveries: if old(self)@.active_deliveries > 0 {
                    (old(self)@.active_deliveries - 1) as u64
                } else {
                    0
                },
                ..old(self)@
            }),
    {
        if self.active_deliveries > 0 {
            self.active_deliveries = self.active_deliveries - 1;
        }
    }


    /// Drops the outputs that have expired at `now`, then the oldest ones
    /// until there is room for one more; their workspaces are released.
    pub fn retain_live_outputs_at(&mut self, now: u64)
        requires
            old(self).wf(),
        ensures
            final(self).wf(),
            final(self).policy() == old(self).policy(),
            final(self)@ == (SupervisorView {
                outputs: retained(old(self)@.outputs, now),
                released: old(self)@.released + workspaces(dropped(old(self)@.outputs, now)),
                ..old(self)@
            }),
            final(self)@.outputs.len() < MAX_DELIVERY_OUTPUTS,
    {
        let ghost s = self@.outputs;
        let ghost base = self@.released;
        let mut records: Vec<OutputRecord> = Vec::new();
        std::mem::swap(&mut records, &mut self.outputs);
        let mut kept: Vec<OutputRecord> = Vec::new();
        let ghost mut i: int = 0;
        assert(s.take(0) =~= Seq::<OutputView>::empty());
        assert(outputs_view(records@) =~= s.skip(0));
        assert(workspaces(expired_outputs(s.take(0), now)) =~= Seq::<Seq<char>>::empty());
        assert(self@.released =~= base + workspaces(expired_outputs(s.take(0), now)));
        assert(outputs_view(kept@) =~= live_outputs(s.take(0), now));
        while records.len() > 0
            invariant
                0 <= i <= s.len(),
                outputs_view(records@) == s.skip(i),
                outputs_view(kept@) == live_outputs(s.take(i), now),
                self@.released == base + workspaces(expired_outputs(s.take(i), now)),
                self@.outputs.len() == 0,
                self@.sequence == old(self)@.sequence,
                self@.active_deliveries == old(self)@.active_deliveries,
                self@.ffmpeg_program == old(self)@.ffmpeg_program,
                self.egress_policy == old(self).egress_policy,
                s == old(self)@.outputs,
                base == old(self)@.released,
            decreases records@.len(),
        {
            let ghost before_kept = outputs_view(kept@);
            let ghost before_rel = self@.released;
            let ghost before_recs = outputs_view(records@);
            assert(before_recs.len() == records@.len());
            assert(before_recs[0] == records@[0]@);
            proof {
                assert(i < s.len());
                assert(s.skip(i)[0] == s[i]);
                assert(s.take(i + 1).drop_last() =~= s.take(i));
                assert(s.take(i + 1).last() == s[i]);
            }
            let r = records.remove(0);
            if r.expires_at_ms > now {
                kept.push(r);
                assert(outputs_view(kept@) =~= before_kept.push(s[i]));
            } else {
                self.released.push(r.workspace);
                assert(self@.released =~= before_rel.push(s[i].workspace));
                assert(workspaces(expired_outputs(s.take(i + 1), now)) =~= workspaces(
                    expired_outputs(s.take(i), now),
                ).push(s[i].workspace));
            }
            proof {
                assert(outputs_view(records@) =~= before_recs.subrange(1, before_recs.len() as int));
                assert(outputs_view(records@) =~= s.skip(i + 1));
                i = i + 1;
            }
        }
        assert(s.take(i) =~= s);
        let ghost l = live_outputs(s, now);
        let ghost mid = self@.released;
        let ghost mut e: int = 0;
        proof {
            lemma_live_sub(s, now);
        }
        assert(l.skip(0) =~= l);
        assert(l.take(0) =~= Seq::<OutputView>::empty());
        assert(mid + workspaces(l.take(0)) =~= mid);
        while kept.len() >= MAX_DELIVERY_OUTPUTS
            invariant
                0 <= e <= overflow(l),
                outputs_view(kept@) == l.skip(e),
                self@.released == mid + workspaces(l.take(e)),
                self@.outputs.len() == 0,
                self@.sequence == old(self)@.sequence,
                self@.active_deliveries == old(self)@.active_deliveries,
                self@.ffmpeg_program == old(self)@.ffmpeg_program,
                self.egress_policy == old(self).egress_policy,
            decreases kept@.len(),
        {
            let ghost before_rel = self@.released;
            let ghost before_kept = outputs_view(kept@);
            assert(before_kept.len() == kept@.len());
            assert(before_kept[0] == kept@[0]@);
            let r = kept.remove(0);
            self.released.push(r.workspace);
            proof {
                assert(outputs_view(kept@) =~= before_kept.subrange(1, before_kept.len() as int));
                assert(l.skip(e)[0] == l[e]);
                assert(self@.released =~= before_rel.push(l[e].workspace));
                assert(workspaces(l.take(e + 1)) =~= workspaces(l.take(e)).push(l[e].workspace));
                assert(outputs_view(kept@) =~= l.skip(e + 1));
                e = e + 1;
            }
        }
        assert(e == overflow(l));
        self.outputs = kept;
        proof {
            lemma_skip_order(l, e);
            assert(workspaces(dropped(s, now)) =~= workspaces(expired_outputs(s, now)) + workspaces(
                l.take(e),
            ));
            assert(self@.released =~= base + workspaces(dropped(s, now)));
            assert forall|k: int| 0 <= k < self@.outputs.len() implies (
            #[trigger] self@.outputs[k]).created_seq < self@.sequence by {
                assert(self@.outputs[k] == l[k + e]);
                assert(l.contains(l[k + e]));
            }
        }
    }

    /// Removes the output published under `token`, releasing its workspace;
    /// tells whether there was one.
    pub fn remove_output(&mut self, token: &str) -> (r: bool)
        requires
            old(self).wf(),
        ensures
            final(self).wf(),
            final(self).policy() == old(self).policy(),
            r == token_index(old(self)@.outputs, token@) is Some,
            final(self)@ == (SupervisorView {
                outputs: without_token(old(self)@.outputs, token@),
                released: old(self)@.released + released_by_token(old(self)@.outputs, token@),
                ..old(self)@
            }),
    {
        let ghost s = self@.outputs;
        let mut i: usize = 0;
        while i < self.outputs.len()
            invariant
                i <= s.len(),
                s == self@.outputs,
                self == old(self),
                self.wf(),
                forall|k: int| 0 <= k < i ==> #[trigger] s[k].token != token@,
            decreases s.len() - i,
        {
            assert(s[i as int] == self.outputs@[i as int]@);
            if str_eq(self.outputs[i].token.as_str(), token) {
                assert(s[i as int].token == token@);
                proof {
                    let w = choose|k: int| 0 <= k < s.len() && #[trigger] s[k].token == token@;
                    if w != i {
                        if w < i {
                            assert(s[w].token != token@);
                        } else {
                            assert(ordered_pair(s[i as int], s[w]));
                        }
                    }
                    lemma_remove_order(s, i as int);
                }
                let ghost before_rel = self@.released;
                let rec = self.outputs.remove(i);
                self.released.push(rec.workspace);
                proof {
                    assert(self@.outputs =~= s.remove(i as int));
                    assert(self@.released =~= before_rel + seq![s[i as int].workspace]);
                    assert forall|k: int| 0 <= k < self@.outputs.len() implies (
                    #[trigger] self@.outputs[k]).created_seq < self@.sequence by {
                        assert(s.remove(i as int).contains(self@.outputs[k]));
                    }
                }
                return true;
            }
            i = i + 1;
        }
        assert(token_index(s, token@) is None);
        assert(self@.released =~= self@.released + Seq::<Seq<char>>::empty());
        false
    }


    fn find_token(&self, token: &str) -> (r: Option<usize>)
        requires
            self.wf(),
        ensures
            match r {
                Some(i) => token_index(self@.outputs, token@) == Some(i as int) && i
                    < self@.outputs.len(),
                None => token_index(self@.outputs, token@) is None,
            },
    {
        let ghost s = self@.outputs;
        let mut i: usize = 0;
        while i < self.outputs.len()
            invariant
                i <= s.len(),
                s == self@.outputs,
                self.wf(),
                forall|k: int| 0 <= k < i ==> #[trigger] s[k].token != token@,
            decreases s.len() - i,
        {
            assert(s[i as int] == self.outputs@[i as int]@);
            if str_eq(self.outputs[i].token.as_str(), token) {
                assert(s[i as int].token == token@);
                proof {
                    let w = choose|k: int| 0 <= k < s.len() && #[trigger] s[k].token == token@;
                    if w < i {
                        assert(s[w].token != token@);
                    } else if w > i {
                        assert(ordered_pair(s[i as int], s[w]));
                    }
                }
                return Some(i);
            }
            i = i + 1;
        }
        None
    }

    /// Withdraws the output named by a gateway path (its token is the
    /// fourth `/`-separated field); tells whether there was one.
    pub fn revoke(&mut self, gateway_path: &str) -> (r: bool)
        requires
            old(self).wf(),
        ensures
            final(self).wf(),
            final(self).policy() == old(self).policy(),
            match path_field(gateway_path@, 3) {
                None => !r && final(self)@ == old(self)@,
                Some(t) => r == token_index(old(self)@.outputs, t) is Some && final(self)@
                    == (SupervisorView {
                    outputs: without_token(old(self)@.outputs, t),
                    released: old(self)@.released + released_by_token(old(self)@.outputs, t),
                    ..old(self)@
                }),
            },
    {
        match nth_path_field(gateway_path, 3) {
            None => false,
            Some(token) => self.remove_output(token.as_str()),
        }
    }

    /// Looks up the output under `token` for a request bound to `binding`,
    /// after dropping what has expired at `now`: unknown tokens are
    /// unavailable; an output presented with another binding, or whose
    /// authority no longer matches (`authority_matches`), is withdrawn and
    /// refused; otherwise the path of its file.
    pub fn serve_lookup_at(
        &mut self,
        token: &str,
        binding: &DeliveryBinding,
        authority_matches: bool,
        now: u64,
    ) -> (r: Result<String, DeliveryError>)
        requires
            old(self).wf(),
        ensures
            final(self).wf(),
            final(self).policy() == old(self).policy(),
            ({
                let s1 = retained(old(self)@.outputs, now);
                let rel1 = old(self)@.released + workspaces(dropped(old(self)@.outputs, now));
                let kept = SupervisorView { outputs: s1, released: rel1, ..old(self)@ };
                let withdrawn = SupervisorView {
                    outputs: without_token(s1, token@),
                    released: rel1 + released_by_token(s1, token@),
                    ..old(self)@
                };
                match token_index(s1, token@) {
                    None => r == Err::<String, DeliveryError>(DeliveryError::OutputUnavailable)
                        && final(self)@ == kept,
                    Some(i) => if s1[i].binding != binding@ {
                        r == Err::<String, DeliveryError>(DeliveryError::CapabilityBindingMismatch)
                            && final(self)@ == withdrawn
                    } else if !authority_matches {
                        r == Err::<String, DeliveryError>(DeliveryError::StaleGeneration)
                            && final(self)@ == withdrawn
                    } else {
                        r is Ok && r->Ok_0@ == s1[i].output_path && final(self)@ == kept
                    },
                }
            }),
    {
        self.retain_live_outputs_at(now);
        match self.find_token(token) {
            None => Err(DeliveryError::OutputUnavailable),
            Some(i) => {
                assert(self@.outputs[i as int] == self.outputs@[i as int]@);
                if !self.outputs[i].binding.same_as(binding) {
                    self.remove_output(token);
                    Err(DeliveryError::CapabilityBindingMismatch)
                } else if !authority_matches {
                    self.remove_output(token);
                    Err(DeliveryError::StaleGeneration)
                } else {
                    Ok(self.outputs[i].output_path.clone())
                }
            },
        }
    }


    /// The checks before any input is acquired: the request is validated at
    /// `now_secs` (Unix seconds), a cancelled attempt and one whose binding
    /// is no longer current are refused, and a delivery slot is taken.
    pub fn begin_delivery(
        &mut self,
        request: &DeliveryRequest,
        now_secs: u64,
        cancelled: bool,
        authority_matches: bool,
    ) -> (r: Result<(), DeliveryError>)
        requires
            old(self).wf(),
        ensures
            final(self).wf(),
            final(self).policy() == old(self).policy(),
            r == begin_outcome(request@, now_secs, cancelled, authority_matches, old(self)@.active_deliveries),
            final(self)@ == if r is Ok {
                SupervisorView {
                    active_deliveries: (old(self)@.active_deliveries + 1) as u64,
                    ..old(self)@
                }
            } else {
                old(self)@
            },
    {
        match validate_request(request, now_secs) {
            Err(e) => return Err(e),
            Ok(()) => {},
        }
        if cancelled {
            return Err(DeliveryError::Cancelled);
        }
        if !authority_matches {
            return Err(DeliveryError::StaleGeneration);
        }
        match self.try_acquire_delivery() {
            Ok(()) => Ok(()),
            Err(e) => Err(e),
        }
    }

    /// Publishes a finished output. The next sequence number is taken and
    /// the token and gateway path are formed from it; the registry drops
    /// what has expired at `now_ms` and makes room. An attempt cancelled or
    /// no longer current by then is refused and its workspace released;
    /// otherwise the output is recorded (replacing any under the same
    /// token) until `now_ms + output_ttl_ms`.
    pub fn publish_at(
        &mut self,
        binding: &DeliveryBinding,
        output_path: String,
        workspace: String,
        output_bytes: u64,
        token_suffix: &str,
        cancelled: bool,
        authority_matches: bool,
        now_ms: u64,
        output_ttl_ms: u64,
    ) -> (r: Result<DeliveryResult, DeliveryError>)
        requires
            old(self).wf(),
            old(self)@.sequence < u64::MAX,
            now_ms + output_ttl_ms <= u64::MAX,
        ensures
            final(self).wf(),
            final(self).policy() == old(self).policy(),
            ({
                let seq = old(self)@.sequence;
                let token = output_token(seq, token_suffix@);
                let s1 = retained(old(self)@.outputs, now_ms);
                let rel1 = old(self)@.released + workspaces(dropped(old(self)@.outputs, now_ms));
                let record = OutputView {
                    token,
                    binding: binding@,
                    output_path: output_path@,
                    workspace: workspace@,
                    expires_at_ms: (now_ms + output_ttl_ms) as u64,
                    created_seq: seq,
                };
                if cancelled || !authority_matches {
                    &&& r == Err::<DeliveryResult, DeliveryError>(
                        if cancelled {
                            DeliveryError::Cancelled
                        } else {
                            DeliveryError::StaleGeneration
                        },
                    )
                    &&& final(self)@ == (SupervisorView {
                        outputs: s1,
                        released: rel1.push(workspace@),
                        sequence: (seq + 1) as u64,
                        ..old(self)@
                    })
                } else {
                    &&& r is Ok
                    &&& r->Ok_0.contract_version == DELIVERY_CONTRACT_VERSION
                    &&& r->Ok_0.binding@ == binding@
                    &&& r->Ok_0.gateway_path@ == delivery_path_spec(token, binding@)
                    &&& r->Ok_0.content_type@ == "video/mp4"@
                    &&& r->Ok_0.output_bytes == output_bytes
                    &&& final(self)@ == (SupervisorView {
                        outputs: without_token(s1, token).push(record),
                        released: rel1,
                        sequence: (seq + 1) as u64,
                        ..old(self)@
                    })
                }
            }),
    {
        let seq = self.sequence;
        self.sequence = self.sequence + 1;
        let mut token = String::new();
        push_str(&mut token, "d");
        let digits = decimal_string(seq);
        push_str(&mut token, digits.as_str());
        push_str(&mut token, "-");
        push_str(&mut token, token_suffix);
        proof {
            reveal_strlit("d");
            reveal_strlit("-");
        }
        assert(token@ =~= output_token(seq, token_suffix@));
        let gateway_path = delivery_path(token.as_str(), binding);
        let ghost s0 = self@.outputs;
        assert forall|k: int| 0 <= k < self@.outputs.len() implies (#[trigger] self@.outputs[k]).created_seq
            < self@.sequence by {}
        self.retain_live_outputs_at(now_ms);
        proof {
            lemma_retained_sub(s0, now_ms);
            assert forall|k: int| 0 <= k < self@.outputs.len() implies (
            #[trigger] self@.outputs[k]).created_seq < seq by {
                assert(retained(s0, now_ms).contains(self@.outputs[k]));
            }
        }
        if cancelled || !authority_matches {
            let ghost before = self@.released;
            self.released.push(workspace);
            assert(self@.released =~= before.push(workspace@));
            return Err(
                if cancelled {
                    DeliveryError::Cancelled
                } else {
                    DeliveryError::StaleGeneration
                },
            );
        }
        let ghost s1 = self@.outputs;
        match self.find_token(token.as_str()) {
            Some(i) => {
                proof {
                    lemma_remove_order(s1, i as int);
                }
                let _replaced = self.outputs.remove(i);
                assert(self@.outputs =~= s1.remove(i as int));
            },
            None => {},
        }
        let ghost s2 = self@.outputs;
        assert(s2 == without_token(s1, token@));
        proof {
            assert forall|k: int| 0 <= k < s2.len() implies #[trigger] s2[k].token != token@ by {
                match token_index(s1, token@) {
                    None => {
                        assert(s2[k] == s1[k]);
                    },
                    Some(i) => {
                        let k2 = if k < i { k } else { k + 1 };
                        assert(s2[k] == s1[k2]);
                        assert(s1[i].token == token@);
                        if k2 < i {
                            assert(ordered_pair(s1[k2], s1[i]));
                        } else {
                            assert(ordered_pair(s1[i], s1[k2]));
                        }
                    },
                }
            }
            assert forall|k: int| 0 <= k < s2.len() implies (#[trigger] s2[k]).created_seq < seq by {
                match token_index(s1, token@) {
                    None => {
                        assert(s2[k] == s1[k]);
                    },
                    Some(i) => {
                        assert(s1.remove(i).contains(s2[k]));
                        let m = choose|m: int| 0 <= m < s1.len() && s1[m] == s2[k];
                        assert(s1[m].created_seq < seq);
                    },
                }
            }
        }
        let record = OutputRecord {
            token: token,
            binding: binding.duplicate(),
            output_path,
            workspace,
            expires_at_ms: now_ms + output_ttl_ms,
            created_seq: seq,
        };
        self.outputs.push(record);
        proof {
            let s3 = self@.outputs;
            assert(s3 =~= s2.push(record@));
            assert forall|a: int, b: int| 0 <= a < b < s3.len() implies ordered_pair(
                #[trigger] s3[a],
                #[trigger] s3[b],
            ) by {
                if b == s2.len() {
                    assert(s3[a] == s2[a]);
                } else {
                    assert(s3[a] == s2[a] && s3[b] == s2[b]);
                }
            }
        }
        let result = DeliveryResult {
            contract_version: DELIVERY_CONTRACT_VERSION,
            binding: binding.duplicate(),
            gateway_path,
            content_type: "video/mp4",
            output_bytes,
        };
        Ok(result)
    }

    /// Hands over the workspaces of removed outputs for deletion.
    pub fn take_released(&mut self) -> (r: Vec<String>)
        requires
            old(self).wf(),
        ensures
            final(self).wf(),
            final(self).policy() == old(self).policy(),
            r@.map_values(|w: String| w@) == old(self)@.released,
            final(self)@ == (SupervisorView { released: Seq::<Seq<char>>::empty(), ..old(self)@ }),
    {
        let mut taken: Vec<String> = Vec::new();
        std::mem::swap(&mut taken, &mut self.released);
        assert(self@.released =~= Seq::<Seq<char>>::empty());
        taken
    }
}

} // verus!

verus! {

/// Retention never keeps an output that has expired.
pub proof fn law_retained_outputs_are_live(s: Seq<OutputView>, now: u64)
    requires
        in_publication_order(s),
    ensures
        forall|i: int|
            0 <= i < retained(s, now).len() ==> (#[trigger] retained(s, now)[i]).expires_at_ms > now,
        retained(s, now).len() < MAX_DELIVERY_OUTPUTS,
{
    lemma_live_sub(s, now);
    let l = live_outputs(s, now);
    let e = overflow(l);
    assert forall|i: int| 0 <= i < retained(s, now).len() implies (#[trigger] retained(
        s,
        now,
    )[i]).expires_at_ms > now by {
        assert(retained(s, now)[i] == l[i + e]);
        assert(l.contains(l[i + e]));
    }
}

/// The newest output survives retention while it is live: eviction takes
/// the oldest first.
pub proof fn law_newest_live_output_is_retained(s: Seq<OutputView>, r: OutputView, now: u64)
    requires
        in_publication_order(s.push(r)),
        r.expires_at_ms > now,
    ensures
        retained(s.push(r), now).len() > 0,
        retained(s.push(r), now).last() == r,
{
    let t = s.push(r);
    assert(t.drop_last() =~= s);
    assert(t.last() == r);
    let l = live_outputs(t, now);
    assert(l == live_outputs(s, now).push(r));
    let e = overflow(l);
    assert(l.skip(e).last() == l.last());
}

/// Once withdrawn, a token names no output.
pub proof fn law_withdrawn_token_is_gone(s: Seq<OutputView>, t: Seq<char>)
    requires
        in_publication_order(s),
    ensures
        token_index(without_token(s, t), t) is None,
{
    let w = without_token(s, t);
    match token_index(s, t) {
        None => {},
        Some(i) => {
            assert forall|k: int| 0 <= k < w.len() implies #[trigger] w[k].token != t by {
                let k2 = if k < i { k } else { k + 1 };
                assert(w[k] == s[k2]);
                if k2 < i {
                    assert(ordered_pair(s[k2], s[i]));
                } else {
                    assert(ordered_pair(s[i], s[k2]));
                }
            }
        },
    }
}

} // verus!
