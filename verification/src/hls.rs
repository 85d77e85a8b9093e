//! HLS manifests passed through the gateway: the manifest is split into
//! lines, each line is classified (blank, a tag, a tag carrying a `URI`
//! attribute, or a media URI), every URI is replaced by the opaque gateway
//! path of a child capability, and the manifest is put back together.
//! Issuing the child capabilities (which validates each URL against the
//! egress policy) happens between classification and rendering.

use crate::delivery::StreamProtocol;
use crate::gateway::{Binding, BindingView};
use crate::text::{chars_of, decimal, decimal_string, lower, lower_string, push_char, push_str, trim, trim_bounds};
use vstd::prelude::*;

verus! {

/// The index of the first `\n` of `s` at or after `k`, or the length of
/// `s` when there is none.
pub open spec fn newline_from(s: Seq<char>, k: int) -> int
    decreases s.len() - k,
{
    if k < 0 || k >= s.len() {
        s.len() as int
    } else if s[k] == '\n' {
        k
    } else {
        newline_from(s, k + 1)
    }
}

proof fn lemma_newline_from(s: Seq<char>, k: int)
    requires
        0 <= k <= s.len(),
    ensures
        k <= newline_from(s, k) <= s.len(),
        newline_from(s, k) < s.len() ==> s[newline_from(s, k)] == '\n',
        forall|j: int| k <= j < newline_from(s, k) ==> s[j] != '\n',
    decreases s.len() - k,
{
    if k < s.len() && s[k] != '\n' {
        lemma_newline_from(s, k + 1);
    }
}

/// The lines of `s` as `str::lines` yields them: split at `\n`, a `\r`
/// right before a `\n` dropped, no empty line after a final `\n`.
pub open spec fn text_lines(s: Seq<char>) -> Seq<Seq<char>>
    decreases s.len(),
{
    if s.len() == 0 {
        Seq::empty()
    } else {
        let i = newline_from(s, 0);
        if i >= s.len() || i < 0 {
            seq![s]
        } else {
            let line = if i > 0 && s[i - 1] == '\r' {
                s.take(i - 1)
            } else {
                s.take(i)
            };
            seq![line] + text_lines(s.skip(i + 1))
        }
    }
}

proof fn lemma_lines_step(s: Seq<char>, start: int, p: int)
    requires
        0 <= start <= p < s.len(),
        s[p] == '\n',
        forall|j: int| start <= j < p ==> s[j] != '\n',
    ensures
        text_lines(s.skip(start)) == seq![
            if p > start && s[p - 1] == '\r' {
                s.subrange(start, p - 1)
            } else {
                s.subrange(start, p)
            },
        ] + text_lines(s.skip(p + 1)),
{
    let rest = s.skip(start);
    let q = p - start;
    lemma_newline_from(rest, 0);
    assert(rest[q] == s[p]);
    let i = newline_from(rest, 0);
    if i < q {
        assert(rest[i] == s[start + i]);
    } else if i > q {
        assert(rest[q] != '\n');
    }
    assert(i == q);
    if q > 0 {
        assert(rest[q - 1] == s[p - 1]);
        assert(rest.take(q - 1) =~= s.subrange(start, p - 1));
    }
    assert(rest.take(q) =~= s.subrange(start, p));
    assert(rest.skip(q + 1) =~= s.skip(p + 1));
}

proof fn lemma_lines_last(s: Seq<char>, start: int)
    requires
        0 <= start < s.len(),
        forall|j: int| start <= j < s.len() ==> s[j] != '\n',
    ensures
        text_lines(s.skip(start)) == seq![s.skip(start)],
{
    let rest = s.skip(start);
    lemma_newline_from(rest, 0);
    let i = newline_from(rest, 0);
    if i < rest.len() {
        assert(rest[i] == s[start + i]);
    }
}

/// The lines of a manifest, as `str::lines` yields them.
pub fn manifest_lines(text: &str) -> (r: Vec<String>)
    ensures
        r@.map_values(|l: String| l@) == text_lines(text@),
{
    let v = chars_of(text);
    let mut out: Vec<String> = Vec::new();
    let mut start: usize = 0;
    assert(text@.skip(0) =~= text@);
    assert(out@.map_values(|l: String| l@) =~= Seq::<Seq<char>>::empty());
    while start < v.len()
        invariant
            start <= v@.len(),
            v@ == text@,
            text_lines(text@) == out@.map_values(|l: String| l@) + text_lines(text@.skip(start as int)),
        decreases v@.len() - start,
    {
        let ghost before = out@.map_values(|l: String| l@);
        let mut p: usize = start;
        while p < v.len() && v[p] != '\n'
            invariant
                start <= p <= v@.len(),
                v@ == text@,
                forall|j: int| start <= j < p ==> v@[j] != '\n',
            decreases v@.len() - p,
        {
            p = p + 1;
        }
        let mut end = p;
        if p < v.len() && p > start && v[p - 1] == '\r' {
            end = p - 1;
        }
        let line = range_string(&v, start, end);
        let ghost l = line@;
        out.push(line);
        assert(out@.map_values(|l: String| l@) =~= before.push(l));
        if p == v.len() {
            proof {
                lemma_lines_last(text@, start as int);
                assert(l =~= text@.skip(start as int));
                assert(text@.skip(p as int) =~= Seq::<char>::empty());
                assert(text_lines(text@.skip(p as int)) =~= Seq::<Seq<char>>::empty());
                assert(before + seq![l] =~= before.push(l) + text_lines(text@.skip(p as int)));
            }
            start = p;
        } else {
            proof {
                lemma_lines_step(text@, start as int, p as int);
                assert(before + (seq![l] + text_lines(text@.skip(p + 1))) =~= before.push(l) + text_lines(
                    text@.skip(p + 1),
                ));
            }
            start = p + 1;
        }
    }
    assert(text@.skip(start as int) =~= Seq::<char>::empty());
    assert(text_lines(text@.skip(start as int)) =~= Seq::<Seq<char>>::empty());
    assert(out@.map_values(|l: String| l@) + Seq::<Seq<char>>::empty() =~= out@.map_values(
        |l: String| l@,
    ));
    out
}

/// What one manifest line is made of.
#[derive(Debug, PartialEq, Eq)]
pub enum ManifestLine {
    /// A line of white space only; it is written back empty.
    Blank,
    /// A tag without a `URI` attribute; it is written back as it was.
    Verbatim(String),
    /// A tag whose `URI="..."` value is `target`, between `before` (up to
    /// and including the opening quote) and `after` (from the closing
    /// quote on).
    Attribute { before: String, target: String, after: String },
    /// A media URI, trimmed.
    Uri(String),
}

pub enum LineView {
    Blank,
    Verbatim(Seq<char>),
    Attribute { before: Seq<char>, target: Seq<char>, after: Seq<char> },
    Uri(Seq<char>),
}

impl View for ManifestLine {
    type V = LineView;

    open spec fn view(&self) -> LineView {
        match self {
            ManifestLine::Blank => LineView::Blank,
            ManifestLine::Verbatim(s) => LineView::Verbatim(s@),
            ManifestLine::Attribute { before, target, after } => LineView::Attribute {
                before: before@,
                target: target@,
                after: after@,
            },
            ManifestLine::Uri(s) => LineView::Uri(s@),
        }
    }
}

/// The attribute marker `URI="`.
pub open spec fn uri_marker() -> Seq<char> {
    seq!['U', 'R', 'I', '=', '"']
}

/// `URI="` starts at `i` in `s`.
pub open spec fn marker_at_spec(s: Seq<char>, i: int) -> bool {
    0 <= i && i + 5 <= s.len() && s.subrange(i, i + 5) == uri_marker()
}

/// `URI="` starts at `i` in `s`, and nowhere before.
pub open spec fn first_marker(s: Seq<char>, i: int) -> bool {
    &&& marker_at_spec(s, i)
    &&& forall|j: int| 0 <= j < i ==> !#[trigger] marker_at_spec(s, j)
}

/// The first `"` of `s` at or after `from` is at `i`.
pub open spec fn first_quote_from(s: Seq<char>, from: int, i: int) -> bool {
    from <= i < s.len() && s[i] == '"' && forall|j: int| from <= j < i ==> s[j] != '"'
}

/// How a manifest line is classified; `None` for a tag whose `URI`
/// attribute is not closed.
pub open spec fn line_plan(l: Seq<char>) -> Option<LineView> {
    if trim(l).len() == 0 {
        Some(LineView::Blank)
    } else if l[0] == '#' {
        if !exists|i: int| first_marker(l, i) {
            Some(LineView::Verbatim(l))
        } else {
            let i = choose|i: int| first_marker(l, i);
            let vs = i + 5;
            if !exists|q: int| first_quote_from(l, vs, q) {
                None
            } else {
                let q = choose|q: int| first_quote_from(l, vs, q);
                Some(
                    LineView::Attribute {
                        before: l.take(vs),
                        target: l.subrange(vs, q),
                        after: l.skip(q),
                    },
                )
            }
        }
    } else {
        Some(LineView::Uri(trim(l)))
    }
}

fn marker_at(v: &Vec<char>, i: usize) -> (r: bool)
    requires
        i + 5 <= v@.len(),
    ensures
        r == marker_at_spec(v@, i as int),
{
    let n = v.len();
    let r = v[i] == 'U' && v[i + 1] == 'R' && v[i + 2] == 'I' && v[i + 3] == '=' && v[i + 4] == '"';
    if r {
        assert(v@.subrange(i as int, i + 5) =~= uri_marker());
    } else {
        proof {
            if v@.subrange(i as int, i + 5) == uri_marker() {
                assert(v@.subrange(i as int, i + 5)[0] == v@[i as int]);
                assert(v@.subrange(i as int, i + 5)[1] == v@[i + 1]);
                assert(v@.subrange(i as int, i + 5)[2] == v@[i + 2]);
                assert(v@.subrange(i as int, i + 5)[3] == v@[i + 3]);
                assert(v@.subrange(i as int, i + 5)[4] == v@[i + 4]);
            }
        }
    }
    r
}

fn range_string(v: &Vec<char>, a: usize, b: usize) -> (r: String)
    requires
        a <= b <= v@.len(),
    ensures
        r@ == v@.subrange(a as int, b as int),
{
    let mut out = String::new();
    let mut i: usize = a;
    while i < b
        invariant
            a <= i <= b <= v@.len(),
            out@ == v@.subrange(a as int, i as int),
        decreases b - i,
    {
        push_char(&mut out, v[i]);
        assert(out@ =~= v@.subrange(a as int, i + 1));
        i = i + 1;
    }
    out
}

/// Classifies one manifest line; an unclosed `URI` attribute is refused.
pub fn plan_manifest_line(line: &str) -> (r: Result<ManifestLine, &'static str>)
    ensures
        match line_plan(line@) {
            Some(p) => r is Ok && r->Ok_0@ == p,
            None => r == Err::<ManifestLine, &'static str>("INVALID_HLS_URI_ATTRIBUTE"),
        },
{
    let v = chars_of(line);
    let (lo, hi) = trim_bounds(&v);
    if lo == hi {
        assert(trim(line@).len() == 0);
        return Ok(ManifestLine::Blank);
    }
    if v[0] != '#' {
        let t = range_string(&v, lo, hi);
        return Ok(ManifestLine::Uri(t));
    }
    let mut i: usize = 0;
    let mut found = false;
    while i < v.len() && v.len() - i >= 5
        invariant_except_break
            !found,
        invariant
            v@ == line@,
            i <= v@.len(),
            forall|j: int| 0 <= j < i ==> !#[trigger] marker_at_spec(v@, j),
        ensures
            found ==> first_marker(v@, i as int),
            !found ==> i + 5 > v@.len(),
            i <= v@.len(),
        decreases v@.len() - i,
    {
        if marker_at(&v, i) {
            found = true;
            break;
        }
        i = i + 1;
    }
    if !found {
        proof {
            assert forall|k: int| !first_marker(line@, k) by {
                if first_marker(line@, k) {
                    assert(marker_at_spec(line@, k));
                }
            }
        }
        return Ok(ManifestLine::Verbatim(line.to_owned()));
    }
    proof {
        let w = choose|k: int| first_marker(line@, k);
        if w < i {
            assert(!marker_at_spec(v@, w));
        } else if w > i {
            assert(!marker_at_spec(line@, i as int));
        }
    }
    let n = v.len();
    assert(i + 5 <= n);
    let n = v.len();
    assert(i + 5 <= n);
    let vs = i + 5;
    let mut q: usize = vs;
    while q < v.len() && v[q] != '"'
        invariant
            vs <= q <= v@.len(),
            v@ == line@,
            forall|j: int| vs <= j < q ==> v@[j] != '"',
        decreases v@.len() - q,
    {
        q = q + 1;
    }
    if q == v.len() {
        proof {
            assert forall|k: int| !first_quote_from(line@, vs as int, k) by {
                if first_quote_from(line@, vs as int, k) {
                    assert(v@[k] != '"');
                }
            }
        }
        return Err("INVALID_HLS_URI_ATTRIBUTE");
    }
    proof {
        assert(first_quote_from(line@, vs as int, q as int));
        let w = choose|k: int| first_quote_from(line@, vs as int, k);
        if w < q {
            assert(v@[w] != '"');
        } else if w > q {
            assert(line@[q as int] != '"');
        }
    }
    let before = range_string(&v, 0, vs);
    let target = range_string(&v, vs, q);
    let after = range_string(&v, q, v.len());
    assert(before@ =~= line@.take(vs as int));
    assert(after@ =~= line@.skip(q as int));
    Ok(ManifestLine::Attribute { before, target, after })
}

/// The URI a planned line needs a gateway path for, if any.
pub open spec fn line_target(p: LineView) -> Option<Seq<char>> {
    match p {
        LineView::Attribute { target, .. } => Some(target),
        LineView::Uri(t) => Some(t),
        _ => None,
    }
}

/// A planned line written back, its URI (if any) replaced by `path`.
pub open spec fn rendered_line(p: LineView, path: Seq<char>) -> Seq<char> {
    match p {
        LineView::Blank => Seq::empty(),
        LineView::Verbatim(l) => l,
        LineView::Attribute { before, after, .. } => before + path + after,
        LineView::Uri(_) => path,
    }
}

impl ManifestLine {
    /// The URI this line needs a gateway path for, if any.
    pub fn target(&self) -> (r: Option<&str>)
        ensures
            match r {
                Some(t) => line_target(self@) == Some(t@),
                None => line_target(self@) is None,
            },
    {
        match self {
            ManifestLine::Attribute { target, .. } => Some(target.as_str()),
            ManifestLine::Uri(t) => Some(t.as_str()),
            _ => None,
        }
    }

    /// Appends the line, its URI replaced by `path`, and a newline.
    pub fn render_into(&self, out: &mut String, path: &str)
        ensures
            final(out)@ == old(out)@ + rendered_line(self@, path@) + seq!['\n'],
    {
        let ghost start = out@;
        match self {
            ManifestLine::Blank => {},
            ManifestLine::Verbatim(l) => push_str(out, l.as_str()),
            ManifestLine::Attribute { before, after, .. } => {
                push_str(out, before.as_str());
                push_str(out, path);
                push_str(out, after.as_str());
            },
            ManifestLine::Uri(_) => push_str(out, path),
        }
        push_char(out, '\n');
        assert(out@ =~= start + rendered_line(self@, path@) + seq!['\n']);
    }
}

// ---------------------------------------------------------------------------
// Children of a manifest
// ---------------------------------------------------------------------------

/// A child URL is itself a manifest when its path ends in `.m3u8`, in any
/// case; otherwise it is a plain file.
pub open spec fn child_protocol_spec(path: Seq<char>) -> StreamProtocol {
    let l = lower(path);
    if l.len() >= 5 && l.skip(l.len() - 5) == seq!['.', 'm', '3', 'u', '8'] {
        StreamProtocol::Hls
    } else {
        StreamProtocol::HttpFile
    }
}

pub fn child_protocol(path: &str) -> (r: StreamProtocol)
    ensures
        r == child_protocol_spec(path@),
{
    let l = lower_string(path);
    let n = l.len();
    if n >= 5 && l[n - 5] == '.' && l[n - 4] == 'm' && l[n - 3] == '3' && l[n - 2] == 'u' && l[n - 1] == '8' {
        assert(l@.skip(n - 5) =~= seq!['.', 'm', '3', 'u', '8']);
        StreamProtocol::Hls
    } else {
        proof {
            if n >= 5 && l@.skip(n - 5) == seq!['.', 'm', '3', 'u', '8'] {
                assert(l@.skip(n - 5)[0] == l@[n - 5]);
                assert(l@.skip(n - 5)[1] == l@[n - 4]);
                assert(l@.skip(n - 5)[2] == l@[n - 3]);
                assert(l@.skip(n - 5)[3] == l@[n - 2]);
                assert(l@.skip(n - 5)[4] == l@[n - 1]);
            }
        }
        StreamProtocol::HttpFile
    }
}

/// Whether an upstream response is a manifest: its path ends in `.m3u8`,
/// or its content type mentions `mpegurl` or `m3u`.
pub open spec fn is_manifest_spec(path: Seq<char>, content_type: Option<Seq<char>>) -> bool {
    child_protocol_spec(path) == StreamProtocol::Hls || match content_type {
        Some(t) => crate::text::contains_seq(t, "mpegurl"@) || crate::text::contains_seq(t, "m3u"@),
        None => false,
    }
}

pub fn is_manifest(path: &str, content_type: Option<&str>) -> (r: bool)
    ensures
        r == is_manifest_spec(path@, match content_type {
            Some(t) => Some(t@),
            None => None,
        }),
{
    if child_protocol(path) == StreamProtocol::Hls {
        return true;
    }
    match content_type {
        None => false,
        Some(t) => {
            let v = chars_of(t);
            let a = chars_of("mpegurl");
            let b = chars_of("m3u");
            crate::text::contains_exec(v.as_slice(), a.as_slice()) || crate::text::contains_exec(
                v.as_slice(),
                b.as_slice(),
            )
        },
    }
}

/// The binding of the `seq`-th child of a manifest: the parent's session
/// and item revision, resource `hls-<seq>`.
pub open spec fn child_binding_spec(parent: BindingView, seq: u64) -> BindingView {
    BindingView {
        session_id: parent.session_id,
        item_id: parent.item_id,
        item_revision: parent.item_revision,
        resource_id: "hls-"@ + decimal(seq as nat),
    }
}

pub fn child_binding(parent: &Binding, seq: u64) -> (r: Binding)
    ensures
        r@ == child_binding_spec(parent@, seq),
{
    let mut id = String::new();
    push_str(&mut id, "hls-");
    let digits = decimal_string(seq);
    push_str(&mut id, digits.as_str());
    proof {
        reveal_strlit("hls-");
    }
    let r = Binding::new(parent.session_id.as_str(), parent.item_id.as_str(), parent.item_revision, id.as_str());
    r
}

/// How long a child may live: what is left of its parent's lifetime at
/// `now`; `None` once the parent has expired.
pub fn child_ttl_ms(parent_expires_at_ms: u64, now: u64) -> (r: Option<u64>)
    ensures
        parent_expires_at_ms > now ==> r == Some((parent_expires_at_ms - now) as u64),
        parent_expires_at_ms <= now ==> r is None,
{
    if parent_expires_at_ms > now {
        Some(parent_expires_at_ms - now)
    } else {
        None
    }
}

} // verus!

verus! {

/// The largest manifest the gateway rewrites, in bytes.
pub const MAX_MANIFEST_BYTES: usize = 524288;

/// The most redirects an upstream fetch follows.
pub const MAX_UPSTREAM_REDIRECTS: usize = 5;

/// What the step gives, by view.
pub enum StepView {
    Deliver,
    Follow(crate::security::UrlView),
    Fail(Seq<char>),
}

pub open spec fn upstream_step_spec(
    hop: usize,
    is_redirect: bool,
    location: Option<Seq<char>>,
    url: crate::security::UrlView,
) -> StepView {
    if !is_redirect {
        StepView::Deliver
    } else if hop >= MAX_UPSTREAM_REDIRECTS {
        StepView::Fail("TOO_MANY_REDIRECTS"@)
    } else {
        match location {
            None => StepView::Fail("INVALID_REDIRECT"@),
            Some(l) => match crate::security::join_outcome(url, l) {
                None => StepView::Fail("INVALID_REDIRECT"@),
                Some(next) => StepView::Follow(next),
            },
        }
    }
}

/// What to do with an upstream response at redirect hop `hop`.
pub enum UpstreamStep {
    /// Deliver the response.
    Deliver,
    /// Fetch this URL next.
    Follow(crate::security::UrlParts),
    /// Give up with this code.
    Fail(&'static str),
}

impl View for UpstreamStep {
    type V = StepView;

    open spec fn view(&self) -> StepView {
        match self {
            UpstreamStep::Deliver => StepView::Deliver,
            UpstreamStep::Follow(u) => StepView::Follow(u@),
            UpstreamStep::Fail(c) => StepView::Fail(c@),
        }
    }
}

/// A non-redirect response is delivered; a redirect is followed to its
/// `Location` resolved against the current URL, unless the hop budget is
/// spent or the location is missing or cannot be resolved.
pub fn upstream_step(
    hop: usize,
    is_redirect: bool,
    location: Option<&str>,
    url: &crate::security::UrlParts,
) -> (r: UpstreamStep)
    ensures
        r@ == upstream_step_spec(hop, is_redirect, match location {
            Some(l) => Some(l@),
            None => None,
        }, url@),
{
    proof {
        reveal_strlit("TOO_MANY_REDIRECTS");
        reveal_strlit("INVALID_REDIRECT");
    }
    if !is_redirect {
        return UpstreamStep::Deliver;
    }
    if hop >= MAX_UPSTREAM_REDIRECTS {
        return UpstreamStep::Fail("TOO_MANY_REDIRECTS");
    }
    match location {
        None => UpstreamStep::Fail("INVALID_REDIRECT"),
        Some(l) => match url.join(l) {
            None => UpstreamStep::Fail("INVALID_REDIRECT"),
            Some(next) => UpstreamStep::Follow(next),
        },
    }
}

/// A sequence that starts with a character other than white space keeps
/// at least that character when trailing white space is cut.
proof fn lemma_trail_ws_short(s: Seq<char>)
    requires
        s.len() > 0,
        !crate::text::is_white_space(s[0]),
    ensures
        crate::text::trail_ws(s) < s.len(),
    decreases s.len(),
{
    if crate::text::is_white_space(s.last()) {
        if s.len() == 1 {
            assert(s.last() == s[0]);
        } else {
            assert(s.drop_last()[0] == s[0]);
            lemma_trail_ws_short(s.drop_last());
        }
    }
}

/// A line that starts with `#` is not blank.
proof fn lemma_tag_not_blank(l: Seq<char>)
    requires
        l.len() > 0,
        l[0] == '#',
    ensures
        trim(l).len() > 0,
{
    assert(!crate::text::is_white_space(l[0]));
    assert(crate::text::lead_ws(l) == 0);
    assert(l.skip(0) =~= l);
    lemma_trail_ws_short(l);
}

/// A tag line (it starts with `#`) that carries no `URI="` attribute needs
/// no gateway path and is written back exactly as it came, whatever path is
/// given; rendering it appends the line and a newline.
pub proof fn law_tag_without_uri_is_kept(l: Seq<char>, path: Seq<char>)
    requires
        l.len() > 0,
        l[0] == '#',
        forall|i: int| !#[trigger] marker_at_spec(l, i),
    ensures
        line_plan(l) is Some,
        line_target(line_plan(l)->0) is None,
        rendered_line(line_plan(l)->0, path) == l,
{
    lemma_tag_not_blank(l);
    assert forall|i: int| !first_marker(l, i) by {
        if first_marker(l, i) {
            assert(marker_at_spec(l, i));
        }
    }
}

/// A tag line whose first `URI="` attribute value ends at the first `"`
/// after it has that value as its target, and is written back with the
/// value replaced by the gateway path and every other character kept.
pub proof fn law_uri_attribute_is_replaced(l: Seq<char>, path: Seq<char>, i: int, q: int)
    requires
        l.len() > 0,
        l[0] == '#',
        first_marker(l, i),
        first_quote_from(l, i + 5, q),
    ensures
        line_plan(l) is Some,
        line_target(line_plan(l)->0) == Some(l.subrange(i + 5, q)),
        rendered_line(line_plan(l)->0, path) == l.take(i + 5) + path + l.skip(q),
{
    lemma_tag_not_blank(l);
    let k = choose|k: int| first_marker(l, k);
    if k < i {
        assert(!marker_at_spec(l, k));
    } else if k > i {
        assert(!marker_at_spec(l, i));
    }
    let vs = i + 5;
    let p = choose|p: int| first_quote_from(l, vs, p);
    if p < q {
        assert(l[p] != '"');
    } else if p > q {
        assert(l[q] != '"');
    }
}

/// A tag line whose `URI="` attribute is never closed is refused.
pub proof fn law_unclosed_uri_attribute_is_refused(l: Seq<char>, i: int)
    requires
        l.len() > 0,
        l[0] == '#',
        first_marker(l, i),
        forall|q: int| i + 5 <= q < l.len() ==> l[q] != '"',
    ensures
        line_plan(l) is None,
{
    lemma_tag_not_blank(l);
    let k = choose|k: int| first_marker(l, k);
    if k < i {
        assert(!marker_at_spec(l, k));
    } else if k > i {
        assert(!marker_at_spec(l, i));
    }
    let vs = i + 5;
    assert forall|q: int| !#[trigger] first_quote_from(l, vs, q) by {
        if first_quote_from(l, vs, q) {
            assert(l[q] != '"');
        }
    }
}

/// A line that is neither blank nor a tag is a media URI: its trimmed text
/// is the target, and the whole line is written back as the gateway path.
pub proof fn law_media_uri_line_is_replaced(l: Seq<char>, path: Seq<char>)
    requires
        trim(l).len() > 0,
        l[0] != '#',
    ensures
        line_plan(l) is Some,
        line_target(line_plan(l)->0) == Some(trim(l)),
        rendered_line(line_plan(l)->0, path) == path,
{
}

/// A blank line (only white space) needs no path and is written back empty.
pub proof fn law_blank_line_is_emptied(l: Seq<char>, path: Seq<char>)
    requires
        trim(l).len() == 0,
    ensures
        line_plan(l) is Some,
        line_target(line_plan(l)->0) is None,
        rendered_line(line_plan(l)->0, path) == Seq::<char>::empty(),
{
}

} // verus!
