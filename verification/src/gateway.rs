//! The media gateway's own small rules: media capability bindings and their
//! opaque stream paths, byte ranges, HTML attribute escaping, control
//! selectors, probe text sanitising and egress error codes.

use crate::security::EgressPolicyError;
use crate::text::{
    all_ident_chars, all_ident_chars_exec, byte_len, chars_of, decimal, decimal_string, is_control,
    is_control_char, is_white_space, is_white_space_exec, lower, lower_string, parse_usize,
    parse_usize_spec, push_char, push_str, starts_with, string_from_chars, trail_ws,
};
use vstd::prelude::*;

verus! {

/// What a media capability is bound to: one session, item revision and
/// resource.
#[derive(Clone, Debug, PartialEq, Eq)]
pub struct Binding {
    pub session_id: String,
    pub item_id: String,
    pub item_revision: u64,
    pub resource_id: String,
}

pub struct BindingView {
    pub session_id: Seq<char>,
    pub item_id: Seq<char>,
    pub item_revision: u64,
    pub resource_id: Seq<char>,
}

impl View for Binding {
    type V = BindingView;

    open spec fn view(&self) -> BindingView {
        BindingView {
            session_id: self.session_id@,
            item_id: self.item_id@,
            item_revision: self.item_revision,
            resource_id: self.resource_id@,
        }
    }
}

impl Binding {
    pub fn new(session: &str, item: &str, item_revision: u64, resource: &str) -> (r: Self)
        ensures
            r@ == (BindingView {
                session_id: session@,
                item_id: item@,
                item_revision,
                resource_id: resource@,
            }),
    {
        Binding {
            session_id: session.to_owned(),
            item_id: item.to_owned(),
            item_revision,
            resource_id: resource.to_owned(),
        }
    }

    pub fn duplicate(&self) -> (r: Self)
        ensures
            r@ == self@,
    {
        Binding {
            session_id: self.session_id.clone(),
            item_id: self.item_id.clone(),
            item_revision: self.item_revision,
            resource_id: self.resource_id.clone(),
        }
    }

    pub fn same_as(&self, other: &Binding) -> (r: bool)
        ensures
            r == (self@ == other@),
    {
        self.session_id.eq(&other.session_id) && self.item_id.eq(&other.item_id)
            && self.item_revision == other.item_revision && self.resource_id.eq(&other.resource_id)
    }
}

/// Paths of the proof fixtures the harness pages use.
#[derive(Clone, Debug)]
pub struct ProofPaths {
    pub mp4_path: Option<String>,
    pub display_path: Option<String>,
    pub subtitle_path: Option<String>,
    pub hls_path: Option<String>,
    pub secret_path: Option<String>,
    pub chain: String,
}

impl Default for ProofPaths {
    fn default() -> (r: Self)
        ensures
            r.mp4_path is None,
            r.display_path is None,
            r.subtitle_path is None,
            r.hls_path is None,
            r.secret_path is None,
            r.chain@ == Seq::<char>::empty(),
    {
        ProofPaths {
            mp4_path: None,
            display_path: None,
            subtitle_path: None,
            hls_path: None,
            secret_path: None,
            chain: String::new(),
        }
    }
}

#[derive(Clone, Copy, Debug, PartialEq, Eq, Structural)]
pub enum GatewayError {
    InvalidHeader,
    SecretHeader,
    InvalidSubtitle,
    UnsupportedSubtitleContentType,
}

/// A subtitle track as the browser sees it: metadata and an opaque
/// same-origin gateway path; the upstream URL, headers and access references
/// stay on the server.
#[derive(Clone, Debug, PartialEq, Eq)]
pub struct SubtitleTrackView {
    pub id: String,
    pub language: Option<String>,
    pub label: Option<String>,
    pub format: &'static str,
    pub gateway_path: String,
}

// ---------------------------------------------------------------------------
// Stream paths
// ---------------------------------------------------------------------------

pub open spec fn stream_path_spec(token: Seq<char>, b: BindingView) -> Seq<char> {
    "/stream/"@ + token + "/"@ + b.session_id + "/"@ + b.item_id + "/"@ + decimal(
        b.item_revision as nat,
    ) + "/"@ + b.resource_id
}

/// The same-origin path of a media capability: the opaque token, then the
/// binding it must be presented with.
pub fn stream_path(token: &str, binding: &Binding) -> (r: String)
    ensures
        r@ == stream_path_spec(token@, binding@),
{
    let mut out = String::new();
    push_str(&mut out, "/stream/");
    push_str(&mut out, token);
    push_str(&mut out, "/");
    push_str(&mut out, binding.session_id.as_str());
    push_str(&mut out, "/");
    push_str(&mut out, binding.item_id.as_str());
    push_str(&mut out, "/");
    let revision = decimal_string(binding.item_revision);
    push_str(&mut out, revision.as_str());
    push_str(&mut out, "/");
    push_str(&mut out, binding.resource_id.as_str());
    assert(out@ =~= stream_path_spec(token@, binding@));
    out
}

// ---------------------------------------------------------------------------
// Byte ranges
// ---------------------------------------------------------------------------

/// One `Range: bytes=start-[end]` over a body of `len` bytes: no list of
/// ranges, a start inside the body, an end clamped to the last byte, and
/// start not after end. Gives the inclusive bounds.
pub open spec fn single_range(value: Seq<char>, len: nat) -> Option<(nat, nat)> {
    let prefix = "bytes="@;
    if !starts_with(value, prefix) {
        None
    } else {
        let range = value.skip(prefix.len() as int);
        if range.contains(',') || !range.contains('-') {
            None
        } else {
            let dash = choose|i: int|
                0 <= i < range.len() && range[i] == '-' && forall|j: int|
                    0 <= j < i ==> range[j] != '-';
            let start_text = range.take(dash);
            let end_text = range.skip(dash + 1);
            match parse_usize_spec(start_text) {
                None => None,
                Some(start) => if start >= len {
                    None
                } else {
                    let end: Option<nat> = if end_text.len() == 0 {
                        Some((len - 1) as nat)
                    } else {
                        match parse_usize_spec(end_text) {
                            None => None,
                            Some(e) => Some(
                                if e < len - 1 {
                                    e
                                } else {
                                    (len - 1) as nat
                                },
                            ),
                        }
                    };
                    match end {
                        None => None,
                        Some(e) => if start <= e {
                            Some((start, e))
                        } else {
                            None
                        },
                    }
                },
            }
        }
    }
}

fn first_index_of(v: &Vec<char>, from: usize, c: char) -> (r: Option<usize>)
    requires
        from <= v@.len(),
    ensures
        match r {
            Some(i) => from <= i < v@.len() && v@[i as int] == c && forall|j: int|
                from <= j < i ==> v@[j] != c,
            None => forall|j: int| from <= j < v@.len() ==> v@[j] != c,
        },
{
    let mut i = from;
    while i < v.len()
        invariant
            from <= i <= v@.len(),
            forall|j: int| from <= j < i ==> v@[j] != c,
        decreases v@.len() - i,
    {
        if v[i] == c {
            return Some(i);
        }
        i = i + 1;
    }
    None
}

fn sub_vec(v: &Vec<char>, from: usize, to: usize) -> (r: Vec<char>)
    requires
        from <= to <= v@.len(),
    ensures
        r@ == v@.subrange(from as int, to as int),
{
    let mut out: Vec<char> = Vec::new();
    let mut i = from;
    while i < to
        invariant
            from <= i <= to <= v@.len(),
            out@ == v@.subrange(from as int, i as int),
        decreases to - i,
    {
        out.push(v[i]);
        assert(out@ =~= v@.subrange(from as int, i + 1));
        i = i + 1;
    }
    out
}

/// Parses a single-range `Range` header value against a body of `len`
/// bytes.
pub fn parse_single_range(value: &str, len: usize) -> (r: Option<(usize, usize)>)
    ensures
        match r {
            Some((s, e)) => single_range(value@, len as nat) == Some((s as nat, e as nat)),
            None => single_range(value@, len as nat) is None,
        },
{
    let v = chars_of(value);
    let prefix = chars_of("bytes=");
    proof {
        reveal_strlit("bytes=");
    }
    if !crate::text::starts_with_exec(v.as_slice(), prefix.as_slice()) {
        return None;
    }
    let ghost range = v@.skip(6);
    if first_index_of(&v, 6, ',').is_some() {
        proof {
            let i = choose|i: int| 6 <= i < v@.len() && v@[i] == ',';
            assert(range[i - 6] == ',');
        }
        return None;
    }
    assert(!range.contains(','));
    let dash = match first_index_of(&v, 6, '-') {
        Some(d) => d,
        None => {
            assert(!range.contains('-'));
            return None;
        },
    };
    assert(range[dash - 6] == '-');
    let ghost chosen = choose|i: int|
        0 <= i < range.len() && range[i] == '-' && forall|j: int| 0 <= j < i ==> range[j] != '-';
    assert(chosen == dash - 6) by {
        if chosen < dash - 6 {
            assert(v@[chosen + 6] == range[chosen]);
        } else if chosen > dash - 6 {
            assert(range[dash - 6] == '-');
        }
    }
    assert(dash < v@.len());
    let start_text = sub_vec(&v, 6, dash);
    let end_text = sub_vec(&v, dash + 1, v.len());
    assert(start_text@ =~= range.take(dash - 6));
    assert(end_text@ =~= range.skip(dash - 6 + 1));
    let start = match parse_usize(start_text.as_slice()) {
        Some(s) => s,
        None => {
            return None;
        },
    };
    if start >= len {
        return None;
    }
    let end = if end_text.len() == 0 {
        len - 1
    } else {
        match parse_usize(end_text.as_slice()) {
            Some(e) => if e < len - 1 {
                e
            } else {
                len - 1
            },
            None => {
                return None;
            },
        }
    };
    if start <= end {
        Some((start, end))
    } else {
        None
    }
}

// ---------------------------------------------------------------------------
// HTML attributes and control selectors
// ---------------------------------------------------------------------------

pub open spec fn escape_char(c: char) -> Seq<char> {
    if c == '&' {
        "&amp;"@
    } else if c == '"' {
        "&quot;"@
    } else if c == '<' {
        "&lt;"@
    } else if c == '>' {
        "&gt;"@
    } else {
        seq![c]
    }
}

/// Every `&`, `"`, `<` and `>` replaced by its character reference.
pub open spec fn escape_html_spec(s: Seq<char>) -> Seq<char>
    decreases s.len(),
{
    if s.len() == 0 {
        Seq::empty()
    } else {
        escape_html_spec(s.drop_last()) + escape_char(s.last())
    }
}

pub fn escape_html_attribute(value: &str) -> (r: String)
    ensures
        r@ == escape_html_spec(value@),
{
    let v = chars_of(value);
    let mut out = String::new();
    let mut i: usize = 0;
    while i < v.len()
        invariant
            i <= v@.len(),
            out@ == escape_html_spec(v@.take(i as int)),
        decreases v@.len() - i,
    {
        let c = v[i];
        let ghost before = out@;
        if c == '&' {
            push_str(&mut out, "&amp;");
        } else if c == '"' {
            push_str(&mut out, "&quot;");
        } else if c == '<' {
            push_str(&mut out, "&lt;");
        } else if c == '>' {
            push_str(&mut out, "&gt;");
        } else {
            push_char(&mut out, c);
            assert(out@ =~= before + seq![c]);
        }
        assert(v@.take(i + 1).drop_last() =~= v@.take(i as int));
        assert(v@.take(i + 1).last() == c);
        i = i + 1;
    }
    assert(v@.take(v@.len() as int) =~= v@);
    out
}

/// The escaped text holds no `"`, `<` or `>`: it cannot leave a quoted
/// attribute or open a tag.
pub proof fn law_escaped_attribute_is_inert(s: Seq<char>)
    ensures
        !escape_html_spec(s).contains('"'),
        !escape_html_spec(s).contains('<'),
        !escape_html_spec(s).contains('>'),
    decreases s.len(),
{
    reveal_strlit("&amp;");
    reveal_strlit("&quot;");
    reveal_strlit("&lt;");
    reveal_strlit("&gt;");
    if s.len() > 0 {
        law_escaped_attribute_is_inert(s.drop_last());
        let a = escape_html_spec(s.drop_last());
        let b = escape_char(s.last());
        assert(!b.contains('"') && !b.contains('<') && !b.contains('>')) by {
            if b.contains('"') {
                let i = choose|i: int| 0 <= i < b.len() && b[i] == '"';
            }
            if b.contains('<') {
                let i = choose|i: int| 0 <= i < b.len() && b[i] == '<';
            }
            if b.contains('>') {
                let i = choose|i: int| 0 <= i < b.len() && b[i] == '>';
            }
        }
        assert forall|c: char| (c == '"' || c == '<' || c == '>') implies !(a + b).contains(c) by {
            if (a + b).contains(c) {
                let i = choose|i: int| 0 <= i < (a + b).len() && (a + b)[i] == c;
                if i < a.len() {
                    assert(a[i] == c);
                } else {
                    assert(b[i - a.len()] == c);
                }
            }
        }
    }
}

/// A control-surface session selector: 1 to 128 bytes of ASCII letters,
/// digits and `.`, `:`, `_`, `-`.
pub open spec fn control_selector_ok(s: Seq<char>) -> bool {
    s.len() > 0 && byte_len(s) <= 128 && all_ident_chars(s)
}

pub fn valid_control_selector(value: &str) -> (r: bool)
    ensures
        r == control_selector_ok(value@),
{
    !value.is_empty() && value.as_bytes().len() <= 128 && all_ident_chars_exec(value)
}

// ---------------------------------------------------------------------------
// Egress error codes
// ---------------------------------------------------------------------------

pub open spec fn egress_code(e: EgressPolicyError) -> Seq<char> {
    match e {
        EgressPolicyError::InvalidScheme => "EGRESS_SCHEME_REJECTED"@,
        EgressPolicyError::MissingHost => "EGRESS_HOST_REJECTED"@,
        EgressPolicyError::InvalidPort => "EGRESS_PORT_REJECTED"@,
        EgressPolicyError::DnsLookupFailed => "EGRESS_DNS_FAILED"@,
        EgressPolicyError::TargetRejected => "EGRESS_TARGET_REJECTED"@,
        EgressPolicyError::LocalServiceOriginMismatch => "EGRESS_TARGET_REJECTED"@,
        EgressPolicyError::LocalServiceNotConfigured => "EGRESS_TARGET_REJECTED"@,
    }
}

pub fn egress_error_code(error: EgressPolicyError) -> (r: &'static str)
    ensures
        r@ == egress_code(error),
{
    match error {
        EgressPolicyError::InvalidScheme => "EGRESS_SCHEME_REJECTED",
        EgressPolicyError::MissingHost => "EGRESS_HOST_REJECTED",
        EgressPolicyError::InvalidPort => "EGRESS_PORT_REJECTED",
        EgressPolicyError::DnsLookupFailed => "EGRESS_DNS_FAILED",
        EgressPolicyError::TargetRejected => "EGRESS_TARGET_REJECTED",
        EgressPolicyError::LocalServiceOriginMismatch => "EGRESS_TARGET_REJECTED",
        EgressPolicyError::LocalServiceNotConfigured => "EGRESS_TARGET_REJECTED",
    }
}

// ---------------------------------------------------------------------------
// Probe text sanitising
// ---------------------------------------------------------------------------

/// The state of the sanitising scan: the text so far, the word being read,
/// and whether the next word is a credential to redact.
pub struct SanitizeState {
    pub out: Seq<char>,
    pub word: Seq<char>,
    pub redact_next: bool,
}

pub open spec fn eq_ignore_case(a: Seq<char>, b: Seq<char>) -> bool {
    lower(a) == lower(b)
}

/// A finished word, followed by a space: the word after `bearer`, `basic`,
/// `cookie` or `cookie:` is redacted, and a cookie marker itself is
/// replaced.
pub open spec fn emit_word(word: Seq<char>, redact_next: bool) -> (Seq<char>, bool) {
    if redact_next {
        ("[redacted] "@, false)
    } else if eq_ignore_case(word, "bearer"@) || eq_ignore_case(word, "basic"@) {
        (word + " "@, true)
    } else if eq_ignore_case(word, "cookie:"@) || eq_ignore_case(word, "cookie"@) {
        ("[redacted-header] "@, true)
    } else {
        (word + " "@, false)
    }
}

pub open spec fn flush_word(st: SanitizeState) -> SanitizeState {
    if st.word.len() == 0 {
        st
    } else {
        SanitizeState {
            out: st.out + emit_word(st.word, st.redact_next).0,
            word: Seq::empty(),
            redact_next: emit_word(st.word, st.redact_next).1,
        }
    }
}

/// Words are separated by white space.
pub open spec fn sanitize_scan(s: Seq<char>) -> SanitizeState
    decreases s.len(),
{
    if s.len() == 0 {
        SanitizeState { out: Seq::empty(), word: Seq::empty(), redact_next: false }
    } else {
        let st = sanitize_scan(s.drop_last());
        if is_white_space(s.last()) {
            flush_word(st)
        } else {
            SanitizeState { word: st.word.push(s.last()), ..st }
        }
    }
}

pub open spec fn not_control() -> spec_fn(char) -> bool {
    |c: char| !is_control(c)
}

pub open spec fn without_controls(s: Seq<char>) -> Seq<char> {
    s.filter(not_control())
}

/// Probe text as kept: credential words redacted, words joined by single
/// spaces, control characters dropped, at most `max` characters.
pub open spec fn sanitize_spec(s: Seq<char>, max: nat) -> Seq<char> {
    let o = flush_word(sanitize_scan(s)).out;
    let t = o.take(o.len() - trail_ws(o));
    let f = without_controls(t);
    if f.len() <= max {
        f
    } else {
        f.take(max as int)
    }
}

fn eq_ignore_case_exec(word: &Vec<char>, literal: &str) -> (r: bool)
    ensures
        r == eq_ignore_case(word@, literal@),
{
    let lit = crate::text::lower_string(literal);
    if lit.len() != word.len() {
        assert(lower(word@).len() != lower(literal@).len());
        return false;
    }
    let mut i: usize = 0;
    while i < word.len()
        invariant
            i <= word@.len(),
            lit@ == lower(literal@),
            lit@.len() == word@.len(),
            forall|j: int| 0 <= j < i ==> lower(word@)[j] == lit@[j],
        decreases word@.len() - i,
    {
        if crate::text::lower_char_exec(word[i]) != lit[i] {
            assert(lower(word@)[i as int] != lower(literal@)[i as int]);
            return false;
        }
        i = i + 1;
    }
    assert(lower(word@) =~= lower(literal@));
    true
}

fn push_all(out: &mut Vec<char>, s: &str)
    ensures
        final(out)@ == old(out)@ + s@,
{
    let v = chars_of(s);
    let mut i: usize = 0;
    let ghost start = out@;
    while i < v.len()
        invariant
            i <= v@.len(),
            v@ == s@,
            out@ == start + v@.take(i as int),
        decreases v@.len() - i,
    {
        out.push(v[i]);
        assert(out@ =~= start + v@.take(i + 1));
        i = i + 1;
    }
    assert(v@.take(v@.len() as int) =~= v@);
}

fn push_vec(out: &mut Vec<char>, w: &Vec<char>)
    ensures
        final(out)@ == old(out)@ + w@,
{
    let mut i: usize = 0;
    let ghost start = out@;
    while i < w.len()
        invariant
            i <= w@.len(),
            out@ == start + w@.take(i as int),
        decreases w@.len() - i,
    {
        out.push(w[i]);
        assert(out@ =~= start + w@.take(i + 1));
        i = i + 1;
    }
    assert(w@.take(w@.len() as int) =~= w@);
}

fn flush_word_exec(out: &mut Vec<char>, word: &mut Vec<char>, redact_next: &mut bool)
    ensures
        ({
            let st = flush_word(
                SanitizeState { out: old(out)@, word: old(word)@, redact_next: *old(redact_next) },
            );
            &&& final(out)@ == st.out
            &&& final(word)@ == st.word
            &&& *final(redact_next) == st.redact_next
        }),
{
    if word.len() == 0 {
        return;
    }
    proof {
        reveal_strlit("[redacted] ");
        reveal_strlit(" ");
        reveal_strlit("[redacted-header] ");
    }
    if *redact_next {
        push_all(out, "[redacted] ");
        *redact_next = false;
    } else if eq_ignore_case_exec(word, "bearer") || eq_ignore_case_exec(word, "basic") {
        push_vec(out, word);
        out.push(' ');
        *redact_next = true;
    } else if eq_ignore_case_exec(word, "cookie:") || eq_ignore_case_exec(word, "cookie") {
        push_all(out, "[redacted-header] ");
        *redact_next = true;
    } else {
        push_vec(out, word);
        out.push(' ');
        *redact_next = false;
    }
    *word = Vec::new();
}

/// Sanitises untrusted probe text before it is stored.
pub fn sanitize_text(value: &str, max: usize) -> (r: String)
    ensures
        r@ == sanitize_spec(value@, max as nat),
        r@.len() <= max,
        forall|i: int| 0 <= i < r@.len() ==> !is_control(#[trigger] r@[i]),
{
    let v = chars_of(value);
    let mut out: Vec<char> = Vec::new();
    let mut word: Vec<char> = Vec::new();
    let mut redact_next = false;
    let mut i: usize = 0;
    while i < v.len()
        invariant
            i <= v@.len(),
            v@ == value@,
            sanitize_scan(v@.take(i as int)) == (SanitizeState {
                out: out@,
                word: word@,
                redact_next,
            }),
        decreases v@.len() - i,
    {
        let c = v[i];
        assert(v@.take(i + 1).drop_last() =~= v@.take(i as int));
        assert(v@.take(i + 1).last() == c);
        if is_white_space_exec(c) {
            flush_word_exec(&mut out, &mut word, &mut redact_next);
        } else {
            word.push(c);
        }
        i = i + 1;
    }
    assert(v@.take(v@.len() as int) =~= v@);
    flush_word_exec(&mut out, &mut word, &mut redact_next);
    let ghost o = out@;
    let mut end = out.len();
    proof {
        crate::text::lemma_trail_ws_bound(o);
        assert(o.take(o.len() as int) =~= o);
    }
    while end > 0 && is_white_space_exec(out[end - 1])
        invariant
            out@ == o,
            end <= o.len(),
            trail_ws(o) == (o.len() - end) + trail_ws(o.take(end as int)),
        decreases end,
    {
        assert(o.take(end as int).drop_last() =~= o.take(end - 1));
        assert(o.take(end as int).last() == o[end - 1]);
        end = end - 1;
    }
    if end > 0 {
        assert(o.take(end as int).last() == o[end - 1]);
    }
    assert(trail_ws(o.take(end as int)) == 0);
    let ghost t = o.take(end as int);
    assert(t == o.take(o.len() - trail_ws(o)));
    let mut kept: Vec<char> = Vec::new();
    let mut k: usize = 0;
    while k < end && kept.len() < max
        invariant
            out@ == o,
            t == o.take(end as int),
            end <= o.len(),
            k <= end,
            kept@.len() <= max,
            kept@ == without_controls(t.take(k as int)),
        decreases end - k,
    {
        let c = out[k];
        assert(t.take(k + 1) =~= t.take(k as int).push(c));
        proof {
            t.take(k as int).lemma_filter_push(c, not_control());
        }
        if !is_control_char(c) {
            kept.push(c);
        }
        k = k + 1;
    }
    proof {
        let f = without_controls(t);
        if k < end {
            assert(kept@.len() == max);
            assert(t =~= t.take(k as int) + t.skip(k as int));
            Seq::filter_distributes_over_add(t.take(k as int), t.skip(k as int), not_control());
            assert(f.take(max as int) =~= kept@);
        } else {
            assert(t.take(k as int) =~= t);
        }
        assert forall|i: int| 0 <= i < f.len() implies !is_control(#[trigger] f[i]) by {
            t.lemma_filter_pred(not_control(), i);
        }
    }
    string_from_chars(kept.as_slice())
}

pub fn sanitize_optional(value: Option<String>, max: usize) -> (r: Option<String>)
    ensures
        match value {
            Some(v) => r is Some && r->0@ == sanitize_spec(v@, max as nat),
            None => r is None,
        },
{
    match value {
        Some(v) => Some(sanitize_text(v.as_str(), max)),
        None => None,
    }
}

} // verus!
