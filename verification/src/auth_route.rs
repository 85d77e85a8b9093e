//! The request ledgers of browser sign-in attempts: which start request
//! opened which attempt, which operation requests an attempt has already
//! carried out (so that a retried request is replayed and a reused request
//! id with other content is refused), the last operation id, and the
//! cancellations already answered.

use crate::keyed::{
    keyed_map, keys_unique, lemma_keyed_absent, lemma_keyed_lookup, lemma_keyed_push,
    lemma_keyed_remove, lemma_keyed_update,
};
use crate::playback::str_eq;
use vstd::prelude::*;

verus! {

// ---------------------------------------------------------------------------
// Start requests
// ---------------------------------------------------------------------------

/// One start request: the site and account it asked for and the attempt it
/// opened.
pub struct StartRecord {
    pub request_id: String,
    pub site_id: String,
    pub account_ref: String,
    pub attempt_id: String,
}

pub struct StartEntry {
    pub site_id: Seq<char>,
    pub account_ref: Seq<char>,
    pub attempt_id: Seq<char>,
}

pub open spec fn start_key(r: StartRecord) -> Seq<char> {
    r.request_id@
}

pub open spec fn start_val(r: StartRecord) -> StartEntry {
    StartEntry { site_id: r.site_id@, account_ref: r.account_ref@, attempt_id: r.attempt_id@ }
}

/// Some record of `s` is for request `k`.
pub open spec fn start_has(s: Seq<StartRecord>, k: Seq<char>) -> bool {
    exists|i: int| 0 <= i < s.len() && #[trigger] s[i].request_id@ == k
}

/// The start requests seen so far, by request id.
pub struct StartLedger {
    records: Vec<StartRecord>,
}

impl View for StartLedger {
    type V = Map<Seq<char>, StartEntry>;

    closed spec fn view(&self) -> Map<Seq<char>, StartEntry> {
        keyed_map(self.records@, |r: StartRecord| start_key(r), |r: StartRecord| start_val(r))
    }
}

/// What a start request is answered with, given the ledger.
#[derive(Debug, PartialEq, Eq)]
pub enum StartDecision {
    /// No request with this id was seen: open a new attempt.
    StartNew,
    /// The same request was seen: answer with the attempt it opened.
    Replay(String),
    /// The id was used for another site or account.
    Mismatch,
}

pub open spec fn start_decision(
    m: Map<Seq<char>, StartEntry>,
    request_id: Seq<char>,
    site_id: Seq<char>,
    account_ref: Seq<char>,
) -> Option<Option<Seq<char>>> {
    if !m.contains_key(request_id) {
        None
    } else if m[request_id].site_id == site_id && m[request_id].account_ref == account_ref {
        Some(Some(m[request_id].attempt_id))
    } else {
        Some(None)
    }
}

pub open spec fn decision_view(d: StartDecision) -> Option<Option<Seq<char>>> {
    match d {
        StartDecision::StartNew => None,
        StartDecision::Replay(a) => Some(Some(a@)),
        StartDecision::Mismatch => Some(None),
    }
}

impl StartLedger {
    pub closed spec fn wf(&self) -> bool {
        keys_unique(self.records@, |r: StartRecord| start_key(r))
    }

    pub fn new() -> (r: Self)
        ensures
            r.wf(),
            r@ == Map::<Seq<char>, StartEntry>::empty(),
    {
        let r = StartLedger { records: Vec::new() };
        assert(r@ =~= Map::<Seq<char>, StartEntry>::empty());
        r
    }

    fn find(&self, request_id: &str) -> (r: Option<usize>)
        requires
            self.wf(),
        ensures
            match r {
                Some(i) => i < self.records@.len() && self.records@[i as int].request_id@
                    == request_id@ && self@.contains_key(request_id@) && self@[request_id@]
                    == start_val(self.records@[i as int]),
                None => !self@.contains_key(request_id@),
            },
    {
        let mut i: usize = 0;
        while i < self.records.len()
            invariant
                self.wf(),
                i <= self.records@.len(),
                forall|k: int| 0 <= k < i ==> #[trigger] start_key(self.records@[k]) != request_id@,
            decreases self.records@.len() - i,
        {
            if str_eq(self.records[i].request_id.as_str(), request_id) {
                proof {
                    lemma_keyed_lookup(
                        self.records@,
                        |r: StartRecord| start_key(r),
                        |r: StartRecord| start_val(r),
                        i as int,
                    );
                }
                return Some(i);
            }
            i = i + 1;
        }
        proof {
            lemma_keyed_absent(
                self.records@,
                |r: StartRecord| start_key(r),
                |r: StartRecord| start_val(r),
                request_id@,
            );
        }
        None
    }

    /// How a start request for `site_id` and `account_ref` under
    /// `request_id` is to be answered.
    pub fn decide(&self, request_id: &str, site_id: &str, account_ref: &str) -> (r: StartDecision)
        requires
            self.wf(),
        ensures
            decision_view(r) == start_decision(self@, request_id@, site_id@, account_ref@),
    {
        match self.find(request_id) {
            None => StartDecision::StartNew,
            Some(i) => {
                let rec = &self.records[i];
                if str_eq(rec.site_id.as_str(), site_id) && str_eq(rec.account_ref.as_str(), account_ref) {
                    StartDecision::Replay(rec.attempt_id.clone())
                } else {
                    StartDecision::Mismatch
                }
            },
        }
    }

    /// Records that `request_id` opened `attempt_id` for the site and
    /// account.
    pub fn record(&mut self, request_id: &str, site_id: &str, account_ref: &str, attempt_id: &str)
        requires
            old(self).wf(),
        ensures
            final(self).wf(),
            final(self)@ == old(self)@.insert(
                request_id@,
                StartEntry { site_id: site_id@, account_ref: account_ref@, attempt_id: attempt_id@ },
            ),
    {
        let rec = StartRecord {
            request_id: request_id.to_owned(),
            site_id: site_id.to_owned(),
            account_ref: account_ref.to_owned(),
            attempt_id: attempt_id.to_owned(),
        };
        match self.find(request_id) {
            Some(i) => {
                proof {
                    lemma_keyed_update(
                        self.records@,
                        |r: StartRecord| start_key(r),
                        |r: StartRecord| start_val(r),
                        i as int,
                        rec,
                    );
                }
                self.records.set(i, rec);
            },
            None => {
                proof {
                    lemma_keyed_push(
                        self.records@,
                        |r: StartRecord| start_key(r),
                        |r: StartRecord| start_val(r),
                        rec,
                    );
                }
                self.records.push(rec);
            },
        }
    }

    /// Forgets the start request `request_id`.
    pub fn forget(&mut self, request_id: &str)
        requires
            old(self).wf(),
        ensures
            final(self).wf(),
            final(self)@ == old(self)@.remove(request_id@),
    {
        match self.find(request_id) {
            Some(i) => {
                proof {
                    lemma_keyed_remove(
                        self.records@,
                        |r: StartRecord| start_key(r),
                        |r: StartRecord| start_val(r),
                        i as int,
                    );
                }
                self.records.remove(i);
            },
            None => {
                assert(self@.remove(request_id@) =~= self@);
            },
        }
    }

    /// Forgets every start request that opened `attempt_id`.
    pub fn forget_attempt(&mut self, attempt_id: &str)
        requires
            old(self).wf(),
        ensures
            final(self).wf(),
            forall|k: Seq<char>| #[trigger]
                final(self)@.contains_key(k) <==> old(self)@.contains_key(k)
                    && old(self)@[k].attempt_id != attempt_id@,
            forall|k: Seq<char>| #[trigger]
                final(self)@.contains_key(k) ==> final(self)@[k] == old(self)@[k],
    {
        let ghost orig = self@;
        let mut i: usize = 0;
        assert(self.records@.skip(0) =~= self.records@);
        assert forall|k: Seq<char>| #[trigger] self@.contains_key(k) implies start_has(
            self.records@.skip(0),
            k,
        ) by {
            let a = choose|a: int| 0 <= a < self.records@.len() && #[trigger] start_key(self.records@[a]) == k;
            assert(self.records@.skip(0)[a] == self.records@[a]);
        }
        while i < self.records.len()
            invariant
                self.wf(),
                i <= self.records@.len(),
                forall|k: int| 0 <= k < i ==> #[trigger] self.records@[k].attempt_id@ != attempt_id@,
                forall|k: Seq<char>| #[trigger]
                    self@.contains_key(k) ==> orig.contains_key(k) && self@[k] == orig[k],
                forall|k: Seq<char>|
                    #[trigger] orig.contains_key(k) && orig[k].attempt_id != attempt_id@
                        ==> self@.contains_key(k),
                forall|k: Seq<char>| #[trigger]
                    self@.contains_key(k) ==> self@[k].attempt_id != attempt_id@ || start_has(
                        self.records@.skip(i as int),
                        k,
                    ),
            decreases self.records@.len() - i,
        {
            if str_eq(self.records[i].attempt_id.as_str(), attempt_id) {
                let ghost before = self.records@;
                let ghost old_map = self@;
                let ghost gone = start_key(before[i as int]);
                proof {
                    lemma_keyed_lookup(
                        before,
                        |r: StartRecord| start_key(r),
                        |r: StartRecord| start_val(r),
                        i as int,
                    );
                    lemma_keyed_remove(
                        before,
                        |r: StartRecord| start_key(r),
                        |r: StartRecord| start_val(r),
                        i as int,
                    );
                }
                self.records.remove(i);
                proof {
                    assert(self.records@ == before.remove(i as int));
                    assert forall|k: int| 0 <= k < i implies #[trigger] self.records@[k].attempt_id@
                        != attempt_id@ by {
                        assert(self.records@[k] == before[k]);
                    }
                    assert forall|k: Seq<char>| #[trigger] self@.contains_key(k) implies self@[k].attempt_id
                        != attempt_id@ || start_has(self.records@.skip(i as int), k) by {
                        if self@[k].attempt_id == attempt_id@ {
                            assert(old_map.contains_key(k) && old_map[k] == self@[k]);
                            assert(start_has(before.skip(i as int), k));
                            let a = choose|a: int|
                                0 <= a < before.skip(i as int).len() && #[trigger] before.skip(i as int)[a].request_id@ == k;
                            assert(before.skip(i as int)[a] == before[i + a]);
                            assert(a != 0) by {
                                if a == 0 {
                                    assert(start_key(before[i as int]) == gone);
                                    assert(!self@.contains_key(gone));
                                }
                            }
                            assert(self.records@.skip(i as int)[a - 1] == before[i + a]);
                        }
                    }
                }
            } else {
                proof {
                    let s = self.records@;
                    assert forall|k: Seq<char>| #[trigger] self@.contains_key(k) implies self@[k].attempt_id
                        != attempt_id@ || start_has(s.skip(i + 1), k) by {
                        if self@[k].attempt_id == attempt_id@ {
                            let a = choose|a: int|
                                0 <= a < s.skip(i as int).len() && #[trigger] s.skip(i as int)[a].request_id@
                                    == k;
                            assert(s.skip(i as int)[a] == s[i + a]);
                            if a == 0 {
                                lemma_keyed_lookup(
                                    s,
                                    |r: StartRecord| start_key(r),
                                    |r: StartRecord| start_val(r),
                                    i as int,
                                );
                            } else {
                                assert(s.skip(i + 1)[a - 1] == s[i + a]);
                            }
                        }
                    }
                }
                i = i + 1;
            }
        }
        proof {
            assert forall|k: Seq<char>| #[trigger] self@.contains_key(k) implies self@[k].attempt_id
                != attempt_id@ by {
                if self@[k].attempt_id == attempt_id@ {
                    assert(self.records@.skip(i as int).len() == 0);
                }
            }
        }
    }
}

// ---------------------------------------------------------------------------
// Operation requests
// ---------------------------------------------------------------------------

/// What an operation request carried, by which a retry is recognised.
#[derive(Clone, Debug, PartialEq, Eq)]
pub enum RequestFingerprint {
    Navigate { operation_id: u64, url: String },
    Input { input: String },
    Candidate {
        operation_id: u64,
        candidate_session_id: String,
        source: String,
        schema_version: u64,
        sequence: u64,
    },
}

pub enum FingerprintView {
    Navigate { operation_id: u64, url: Seq<char> },
    Input { input: Seq<char> },
    Candidate {
        operation_id: u64,
        candidate_session_id: Seq<char>,
        source: Seq<char>,
        schema_version: u64,
        sequence: u64,
    },
}

impl View for RequestFingerprint {
    type V = FingerprintView;

    open spec fn view(&self) -> FingerprintView {
        match self {
            RequestFingerprint::Navigate { operation_id, url } => FingerprintView::Navigate {
                operation_id: *operation_id,
                url: url@,
            },
            RequestFingerprint::Input { input } => FingerprintView::Input { input: input@ },
            RequestFingerprint::Candidate {
                operation_id,
                candidate_session_id,
                source,
                schema_version,
                sequence,
            } => FingerprintView::Candidate {
                operation_id: *operation_id,
                candidate_session_id: candidate_session_id@,
                source: source@,
                schema_version: *schema_version,
                sequence: *sequence,
            },
        }
    }
}

impl RequestFingerprint {
    pub fn same_as(&self, other: &RequestFingerprint) -> (r: bool)
        ensures
            r == (self@ == other@),
    {
        match (self, other) {
            (
                RequestFingerprint::Navigate { operation_id: a, url: u },
                RequestFingerprint::Navigate { operation_id: b, url: v },
            ) => *a == *b && str_eq(u.as_str(), v.as_str()),
            (RequestFingerprint::Input { input: a }, RequestFingerprint::Input { input: b }) => str_eq(
                a.as_str(),
                b.as_str(),
            ),
            (
                RequestFingerprint::Candidate {
                    operation_id: a1,
                    candidate_session_id: a2,
                    source: a3,
                    schema_version: a4,
                    sequence: a5,
                },
                RequestFingerprint::Candidate {
                    operation_id: b1,
                    candidate_session_id: b2,
                    source: b3,
                    schema_version: b4,
                    sequence: b5,
                },
            ) => *a1 == *b1 && str_eq(a2.as_str(), b2.as_str()) && str_eq(a3.as_str(), b3.as_str())
                && *a4 == *b4 && *a5 == *b5,
            _ => false,
        }
    }

    pub fn duplicate(&self) -> (r: Self)
        ensures
            r@ == self@,
    {
        match self {
            RequestFingerprint::Navigate { operation_id, url } => RequestFingerprint::Navigate {
                operation_id: *operation_id,
                url: url.clone(),
            },
            RequestFingerprint::Input { input } => RequestFingerprint::Input { input: input.clone() },
            RequestFingerprint::Candidate {
                operation_id,
                candidate_session_id,
                source,
                schema_version,
                sequence,
            } => RequestFingerprint::Candidate {
                operation_id: *operation_id,
                candidate_session_id: candidate_session_id.clone(),
                source: source.clone(),
                schema_version: *schema_version,
                sequence: *sequence,
            },
        }
    }
}

pub struct RequestRecord {
    pub request_id: String,
    pub fingerprint: RequestFingerprint,
}

pub open spec fn request_key(r: RequestRecord) -> Seq<char> {
    r.request_id@
}

pub open spec fn request_val(r: RequestRecord) -> FingerprintView {
    r.fingerprint@
}

/// The operation requests one attempt has carried out, and the last
/// operation id it accepted.
pub struct OperationLedger {
    requests: Vec<RequestRecord>,
    last_operation: u64,
}

pub struct OperationLedgerView {
    pub requests: Map<Seq<char>, FingerprintView>,
    pub last_operation: u64,
}

impl View for OperationLedger {
    type V = OperationLedgerView;

    closed spec fn view(&self) -> OperationLedgerView {
        OperationLedgerView {
            requests: keyed_map(
                self.requests@,
                |r: RequestRecord| request_key(r),
                |r: RequestRecord| request_val(r),
            ),
            last_operation: self.last_operation,
        }
    }
}

/// How an operation request is to be handled.
#[derive(Clone, Copy, Debug, PartialEq, Eq, Structural)]
pub enum OperationDecision {
    /// Carry it out.
    Proceed,
    /// The same request was carried out already: answer it again.
    Replay,
    /// The request id was used for another request.
    Mismatch,
    /// The operation id is not newer than the last one.
    Stale,
    /// A candidate was already accepted for this attempt.
    AlreadyAccepted,
}

/// The answer for a request id already seen, if it was.
pub open spec fn seen_decision(
    m: Map<Seq<char>, FingerprintView>,
    request_id: Seq<char>,
    fp: FingerprintView,
) -> Option<OperationDecision> {
    if !m.contains_key(request_id) {
        None
    } else if m[request_id] == fp {
        Some(OperationDecision::Replay)
    } else {
        Some(OperationDecision::Mismatch)
    }
}

pub open spec fn navigate_decision(
    v: OperationLedgerView,
    request_id: Seq<char>,
    operation_id: u64,
    url: Seq<char>,
) -> OperationDecision {
    match seen_decision(
        v.requests,
        request_id,
        FingerprintView::Navigate { operation_id, url },
    ) {
        Some(d) => d,
        None => if operation_id == 0 || operation_id <= v.last_operation {
            OperationDecision::Stale
        } else {
            OperationDecision::Proceed
        },
    }
}

pub open spec fn simple_decision(
    v: OperationLedgerView,
    request_id: Seq<char>,
    fp: FingerprintView,
) -> OperationDecision {
    match seen_decision(v.requests, request_id, fp) {
        Some(d) => d,
        None => OperationDecision::Proceed,
    }
}

pub open spec fn candidate_decision(
    v: OperationLedgerView,
    request_id: Seq<char>,
    fp: FingerprintView,
    accepted: bool,
) -> OperationDecision {
    match seen_decision(v.requests, request_id, fp) {
        Some(d) => d,
        None => if accepted {
            OperationDecision::AlreadyAccepted
        } else {
            OperationDecision::Proceed
        },
    }
}

impl OperationLedger {
    pub closed spec fn wf(&self) -> bool {
        keys_unique(self.requests@, |r: RequestRecord| request_key(r))
    }

    pub fn new() -> (r: Self)
        ensures
            r.wf(),
            r@.requests == Map::<Seq<char>, FingerprintView>::empty(),
            r@.last_operation == 0,
    {
        let r = OperationLedger { requests: Vec::new(), last_operation: 0 };
        assert(r@.requests =~= Map::<Seq<char>, FingerprintView>::empty());
        r
    }

    pub fn last_operation(&self) -> (r: u64)
        ensures
            r == self@.last_operation,
    {
        self.last_operation
    }

    fn find(&self, request_id: &str) -> (r: Option<usize>)
        requires
            self.wf(),
        ensures
            match r {
                Some(i) => i < self.requests@.len() && self@.requests.contains_key(request_id@)
                    && self.requests@[i as int].request_id@ == request_id@
                    && self@.requests[request_id@] == self.requests@[i as int].fingerprint@,
                None => !self@.requests.contains_key(request_id@),
            },
    {
        let mut i: usize = 0;
        while i < self.requests.len()
            invariant
                self.wf(),
                i <= self.requests@.len(),
                forall|k: int| 0 <= k < i ==> #[trigger] request_key(self.requests@[k]) != request_id@,
            decreases self.requests@.len() - i,
        {
            if str_eq(self.requests[i].request_id.as_str(), request_id) {
                proof {
                    lemma_keyed_lookup(
                        self.requests@,
                        |r: RequestRecord| request_key(r),
                        |r: RequestRecord| request_val(r),
                        i as int,
                    );
                }
                return Some(i);
            }
            i = i + 1;
        }
        proof {
            lemma_keyed_absent(
                self.requests@,
                |r: RequestRecord| request_key(r),
                |r: RequestRecord| request_val(r),
                request_id@,
            );
        }
        None
    }

    fn seen(&self, request_id: &str, fp: &RequestFingerprint) -> (r: Option<OperationDecision>)
        requires
            self.wf(),
        ensures
            r == seen_decision(self@.requests, request_id@, fp@),
    {
        match self.find(request_id) {
            None => None,
            Some(i) => if self.requests[i].fingerprint.same_as(fp) {
                Some(OperationDecision::Replay)
            } else {
                Some(OperationDecision::Mismatch)
            },
        }
    }

    /// How a navigation with `operation_id` to `url` under `request_id` is
    /// handled: a seen request is replayed or refused, an operation id not
    /// newer than the last is stale.
    pub fn decide_navigate(&self, request_id: &str, operation_id: u64, url: &str) -> (r:
        OperationDecision)
        requires
            self.wf(),
        ensures
            r == navigate_decision(self@, request_id@, operation_id, url@),
    {
        let fp = RequestFingerprint::Navigate { operation_id, url: url.to_owned() };
        match self.seen(request_id, &fp) {
            Some(d) => d,
            None => if operation_id == 0 || operation_id <= self.last_operation {
                OperationDecision::Stale
            } else {
                OperationDecision::Proceed
            },
        }
    }

    /// How an input request is handled.
    pub fn decide_input(&self, request_id: &str, input: &str) -> (r: OperationDecision)
        requires
            self.wf(),
        ensures
            r == simple_decision(self@, request_id@, FingerprintView::Input { input: input@ }),
    {
        let fp = RequestFingerprint::Input { input: input.to_owned() };
        match self.seen(request_id, &fp) {
            Some(d) => d,
            None => OperationDecision::Proceed,
        }
    }

    /// How a candidate request is handled, `accepted` telling whether a
    /// candidate was already accepted.
    pub fn decide_candidate(&self, request_id: &str, fp: &RequestFingerprint, accepted: bool) -> (r:
        OperationDecision)
        requires
            self.wf(),
        ensures
            r == candidate_decision(self@, request_id@, fp@, accepted),
    {
        match self.seen(request_id, fp) {
            Some(d) => d,
            None => if accepted {
                OperationDecision::AlreadyAccepted
            } else {
                OperationDecision::Proceed
            },
        }
    }

    /// Records that the request was carried out.
    pub fn record(&mut self, request_id: &str, fp: RequestFingerprint)
        requires
            old(self).wf(),
        ensures
            final(self).wf(),
            final(self)@.requests == old(self)@.requests.insert(request_id@, fp@),
            final(self)@.last_operation == old(self)@.last_operation,
    {
        let rec = RequestRecord { request_id: request_id.to_owned(), fingerprint: fp };
        match self.find(request_id) {
            Some(i) => {
                proof {
                    lemma_keyed_update(
                        self.requests@,
                        |r: RequestRecord| request_key(r),
                        |r: RequestRecord| request_val(r),
                        i as int,
                        rec,
                    );
                }
                self.requests.set(i, rec);
            },
            None => {
                proof {
                    lemma_keyed_push(
                        self.requests@,
                        |r: RequestRecord| request_key(r),
                        |r: RequestRecord| request_val(r),
                        rec,
                    );
                }
                self.requests.push(rec);
            },
        }
    }

    /// Records that a navigation was carried out as operation `operation`.
    pub fn record_navigation(&mut self, request_id: &str, operation_id: u64, url: &str, operation: u64)
        requires
            old(self).wf(),
        ensures
            final(self).wf(),
            final(self)@.requests == old(self)@.requests.insert(
                request_id@,
                FingerprintView::Navigate { operation_id, url: url@ },
            ),
            final(self)@.last_operation == operation,
    {
        self.record(request_id, RequestFingerprint::Navigate { operation_id, url: url.to_owned() });
        self.last_operation = operation;
    }
}

// ---------------------------------------------------------------------------
// Answered cancellations
// ---------------------------------------------------------------------------

/// The cancellations already answered, by attempt and request id.
pub struct CancelLedger {
    answered: Vec<(String, String)>,
}

impl View for CancelLedger {
    type V = Set<(Seq<char>, Seq<char>)>;

    closed spec fn view(&self) -> Set<(Seq<char>, Seq<char>)> {
        Set::new(
            |p: (Seq<char>, Seq<char>)|
                exists|i: int|
                    0 <= i < self.answered@.len() && #[trigger] self.answered@[i].0@ == p.0
                        && self.answered@[i].1@ == p.1,
        )
    }
}

impl CancelLedger {
    pub fn new() -> (r: Self)
        ensures
            r@ == Set::<(Seq<char>, Seq<char>)>::empty(),
    {
        let r = CancelLedger { answered: Vec::new() };
        assert(r@ =~= Set::<(Seq<char>, Seq<char>)>::empty());
        r
    }

    /// Whether the cancellation `request_id` of `attempt_id` was answered.
    pub fn answered(&self, attempt_id: &str, request_id: &str) -> (r: bool)
        ensures
            r == self@.contains((attempt_id@, request_id@)),
    {
        let mut i: usize = 0;
        while i < self.answered.len()
            invariant
                i <= self.answered@.len(),
                forall|k: int|
                    0 <= k < i ==> !(#[trigger] self.answered@[k].0@ == attempt_id@ && self.answered@[k].1@
                        == request_id@),
            decreases self.answered@.len() - i,
        {
            if str_eq(self.answered[i].0.as_str(), attempt_id) && str_eq(
                self.answered[i].1.as_str(),
                request_id,
            ) {
                return true;
            }
            i = i + 1;
        }
        false
    }

    /// Records that the cancellation was answered.
    pub fn record(&mut self, attempt_id: &str, request_id: &str)
        ensures
            final(self)@ == old(self)@.insert((attempt_id@, request_id@)),
    {
        let ghost before = self.answered@;
        self.answered.push((attempt_id.to_owned(), request_id.to_owned()));
        proof {
            let after = self.answered@;
            assert forall|p: (Seq<char>, Seq<char>)| #[trigger] self@.contains(p) <==> old(self)@.insert(
                (attempt_id@, request_id@),
            ).contains(p) by {
                if self@.contains(p) {
                    let i = choose|i: int|
                        0 <= i < after.len() && #[trigger] after[i].0@ == p.0 && after[i].1@ == p.1;
                    if i < before.len() {
                        assert(before[i] == after[i]);
                        assert(old(self)@.contains(p));
                    }
                }
                if old(self)@.contains(p) {
                    let i = choose|i: int|
                        0 <= i < before.len() && #[trigger] before[i].0@ == p.0 && before[i].1@ == p.1;
                    assert(after[i] == before[i]);
                    assert(self@.contains(p));
                }
                if p == (attempt_id@, request_id@) {
                    assert(after[before.len() as int].0@ == p.0);
                    assert(self@.contains(p));
                }
            }
            assert(self@ =~= old(self)@.insert((attempt_id@, request_id@)));
        }
    }
}

} // verus!

verus! {

/// A start request, once recorded, is answered with the attempt it opened
/// when retried, and refused when its id comes back for another site or
/// account.
pub proof fn law_recorded_start_replays(
    m: Map<Seq<char>, StartEntry>,
    request_id: Seq<char>,
    site_id: Seq<char>,
    account_ref: Seq<char>,
    attempt_id: Seq<char>,
    other_site: Seq<char>,
    other_account: Seq<char>,
)
    requires
        other_site != site_id || other_account != account_ref,
    ensures
        ({
            let m2 = m.insert(
                request_id,
                StartEntry { site_id, account_ref, attempt_id },
            );
            &&& start_decision(m2, request_id, site_id, account_ref) == Some(Some(attempt_id))
            &&& start_decision(m2, request_id, other_site, other_account) == Some(
                None::<Seq<char>>,
            )
        }),
{
}

/// A carried-out request is replayed when retried with the same content,
/// and refused when its id comes back with other content.
pub proof fn law_recorded_request_replays(
    v: OperationLedgerView,
    request_id: Seq<char>,
    fp: FingerprintView,
    other: FingerprintView,
)
    requires
        other != fp,
    ensures
        seen_decision(v.requests.insert(request_id, fp), request_id, fp) == Some(
            OperationDecision::Replay,
        ),
        seen_decision(v.requests.insert(request_id, fp), request_id, other) == Some(
            OperationDecision::Mismatch,
        ),
{
}

/// After a navigation is carried out as operation `operation`, a new
/// navigation request is carried out only with a newer operation id.
pub proof fn law_navigation_ids_increase(
    v: OperationLedgerView,
    request_id: Seq<char>,
    operation_id: u64,
    url: Seq<char>,
    operation: u64,
    next_request: Seq<char>,
    next_operation_id: u64,
    next_url: Seq<char>,
)
    requires
        !v.requests.contains_key(next_request),
        next_request != request_id,
    ensures
        ({
            let after = OperationLedgerView {
                requests: v.requests.insert(
                    request_id,
                    FingerprintView::Navigate { operation_id, url },
                ),
                last_operation: operation,
            };
            navigate_decision(after, next_request, next_operation_id, next_url)
                == OperationDecision::Proceed <==> next_operation_id > operation
        }),
{
}

} // verus!
