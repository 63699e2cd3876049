//! What sending a request decides: the outcome kinds, the phase timings,
//! the body preview kept while a response streams in, and the reading of a
//! few response headers.
use vstd::prelude::*;
use vstd::string::StringExecFns;

use crate::domain::{BodyRef, ResponseSummary};
use crate::error_classifier::{classify_spec, classify_transport_facts, ClassifiedError, TransportErrorFacts};
use crate::text::{
    ascii_lower, chars_eq, chars_of, contains_exec, contains_seq, find_from, first_match,
    string_of, to_ascii_lowercase, trim, trim_bounds, sub_vec,
};

verus! {

/// How long each phase of an exchange took, in milliseconds, where known.
#[derive(Debug, Clone, Copy, PartialEq, Eq, Structural)]
pub struct PhaseTimings {
    pub prepare_ms: Option<u64>,
    pub dns_ms: Option<u64>,
    pub connect_ms: Option<u64>,
    pub ttfb_ms: Option<u64>,
    pub download_ms: Option<u64>,
    pub process_ms: Option<u64>,
}

impl PhaseTimings {
    /// No phase measured yet.
    pub fn unmeasured() -> (r: Self)
        ensures
            r == (PhaseTimings {
                prepare_ms: None,
                dns_ms: None,
                connect_ms: None,
                ttfb_ms: None,
                download_ms: None,
                process_ms: None,
            }),
    {
        PhaseTimings {
            prepare_ms: None,
            dns_ms: None,
            connect_ms: None,
            ttfb_ms: None,
            download_ms: None,
            process_ms: None,
        }
    }
}

/// Collects the DNS and connect timings that the transport reports while a
/// request is in flight.
#[derive(Debug, Clone, Copy, PartialEq, Eq, Structural)]
pub struct PhaseTimingCollector {
    timings: PhaseTimings,
}

impl PhaseTimingCollector {
    pub closed spec fn timings_view(&self) -> PhaseTimings {
        self.timings
    }

    pub fn new() -> (r: Self)
        ensures
            r.timings_view() == (PhaseTimings {
                prepare_ms: None,
                dns_ms: None,
                connect_ms: None,
                ttfb_ms: None,
                download_ms: None,
                process_ms: None,
            }),
    {
        PhaseTimingCollector { timings: PhaseTimings::unmeasured() }
    }

    /// The timings recorded so far.
    pub fn snapshot(&self) -> (r: PhaseTimings)
        ensures
            r == self.timings_view(),
    {
        self.timings
    }

    pub fn record_dns(&mut self, ms: u64)
        ensures
            final(self).timings_view() == (PhaseTimings {
                dns_ms: Some(ms),
                ..old(self).timings_view()
            }),
    {
        self.timings.dns_ms = Some(ms);
    }

    pub fn record_connect(&mut self, ms: u64)
        ensures
            final(self).timings_view() == (PhaseTimings {
                connect_ms: Some(ms),
                ..old(self).timings_view()
            }),
    {
        self.timings.connect_ms = Some(ms);
    }
}

/// Progress that a running exchange reports before it ends.
#[derive(Debug, Clone, Copy, PartialEq, Eq, Structural)]
pub enum ExecProgressEvent {
    ResponseStreamingStarted,
}

/// How an exchange ended.
#[derive(Debug)]
pub enum ExecOutcome {
    Completed(ResponseSummary),
    Failed { summary: String, classified: Option<ClassifiedError> },
    Cancelled { partial_size: Option<u64> },
    PreflightFailed(String),
}

/// What a send that got no response ends in: cancelled, with nothing
/// received, when its token was cancelled; else failed, with the error's
/// text and its class.
pub fn outcome_after_send(
    cancelled: bool,
    error_summary: String,
    facts: &TransportErrorFacts,
) -> (r: ExecOutcome)
    ensures
        cancelled ==> r == (ExecOutcome::Cancelled { partial_size: None }),
        !cancelled ==> (r matches ExecOutcome::Failed { summary, classified: Some(c) }
            && summary == error_summary && classify_spec(*facts, c)),
{
    if cancelled {
        ExecOutcome::Cancelled { partial_size: None }
    } else {
        ExecOutcome::Failed {
            summary: error_summary,
            classified: Some(classify_transport_facts(facts)),
        }
    }
}

/// A value still holds an unresolved `{{...}}` placeholder: it contains both
/// `{{` and `}}`.
pub open spec fn has_unresolved_placeholders_spec(value: Seq<char>) -> bool {
    contains_seq(value, seq!['{', '{']) && contains_seq(value, seq!['}', '}'])
}

/// Whether a value still holds an unresolved placeholder; such values are
/// sent literally and only warned about.
pub fn has_unresolved_placeholders(value: &str) -> (r: bool)
    ensures
        r == has_unresolved_placeholders_spec(value@),
{
    let v = chars_of(value);
    let open = chars_of("{{");
    let close = chars_of("}}");
    proof {
        reveal_strlit("{{");
        reveal_strlit("}}");
        assert(open@ =~= seq!['{', '{']);
        assert(close@ =~= seq!['}', '}']);
    }
    contains_exec(v.as_slice(), open.as_slice()) && contains_exec(v.as_slice(), close.as_slice())
}

/// The size of a header block on the wire: `name: value\r\n` per header.
pub open spec fn header_block_size_spec(headers: Seq<(Vec<u8>, Vec<u8>)>) -> nat
    decreases headers.len(),
{
    if headers.len() == 0 {
        0
    } else {
        header_block_size_spec(headers.drop_last()) + headers.last().0@.len() + 2
            + headers.last().1@.len() + 2
    }
}

/// The size of a header block, each header given as its name and value
/// bytes.
pub fn header_block_size(headers: &[(Vec<u8>, Vec<u8>)]) -> (r: u64)
    requires
        header_block_size_spec(headers@) <= u64::MAX,
    ensures
        r == header_block_size_spec(headers@),
{
    let mut total: u64 = 0;
    let mut i: usize = 0;
    while i < headers.len()
        invariant
            i <= headers.len(),
            header_block_size_spec(headers@) <= u64::MAX,
            total == header_block_size_spec(headers@.take(i as int)),
        decreases headers.len() - i,
    {
        proof {
            assert(headers@.take(i + 1).drop_last() =~= headers@.take(i as int));
            lemma_header_block_size_prefix(headers@, i + 1);
        }
        let (name, value) = &headers[i];
        total = total + name.len() as u64 + 2 + value.len() as u64 + 2;
        i = i + 1;
    }
    proof {
        assert(headers@.take(headers@.len() as int) =~= headers@);
    }
    total
}

/// Whether the size of a header block fits a `u64`.
pub fn header_block_size_fits(headers: &[(Vec<u8>, Vec<u8>)]) -> (r: bool)
    ensures
        r == (header_block_size_spec(headers@) <= u64::MAX),
{
    let mut total: u128 = 0;
    let mut i: usize = 0;
    while i < headers.len()
        invariant
            i <= headers.len(),
            total == header_block_size_spec(headers@.take(i as int)),
            total <= u64::MAX,
        decreases headers.len() - i,
    {
        proof {
            assert(headers@.take(i + 1).drop_last() =~= headers@.take(i as int));
        }
        let (name, value) = &headers[i];
        total = total + name.len() as u128 + 2 + value.len() as u128 + 2;
        if total > u64::MAX as u128 {
            proof {
                lemma_header_block_size_prefix(headers@, i + 1);
            }
            return false;
        }
        i = i + 1;
    }
    proof {
        assert(headers@.take(headers@.len() as int) =~= headers@);
    }
    true
}

proof fn lemma_header_block_size_prefix(headers: Seq<(Vec<u8>, Vec<u8>)>, k: int)
    requires
        0 <= k <= headers.len(),
    ensures
        header_block_size_spec(headers.take(k)) <= header_block_size_spec(headers),
    decreases headers.len(),
{
    if k < headers.len() {
        assert(headers.drop_last().take(k) =~= headers.take(k));
        lemma_header_block_size_prefix(headers.drop_last(), k);
    } else {
        assert(headers.take(k) =~= headers);
    }
}

/// The pieces of `s` between commas (`str::split(',')`).
pub open spec fn comma_parts(s: Seq<char>) -> Seq<Seq<char>>
    decreases s.len(),
{
    if s.len() == 0 {
        seq![Seq::empty()]
    } else {
        let rest = comma_parts(s.drop_last());
        if s.last() == ',' {
            rest.push(Seq::empty())
        } else {
            rest.update(rest.len() - 1, rest.last().push(s.last()))
        }
    }
}

proof fn lemma_comma_parts_nonempty(s: Seq<char>)
    ensures
        comma_parts(s).len() >= 1,
    decreases s.len(),
{
    if s.len() > 0 {
        lemma_comma_parts_nonempty(s.drop_last());
    }
}

/// One piece of a `Transfer-Encoding` value that names chunked coding.
pub open spec fn is_chunked_token(part: Seq<char>) -> bool {
    ascii_lower(trim(part)) == "chunked"@
}

/// A `Transfer-Encoding` value that lists chunked coding.
pub open spec fn is_chunked_spec(value: Seq<char>) -> bool {
    exists|j: int| 0 <= j < comma_parts(value).len() && is_chunked_token(#[trigger] comma_parts(value)[j])
}

fn is_chunked_part(part: &[char]) -> (r: bool)
    ensures
        r == is_chunked_token(part@),
{
    let (a, b) = trim_bounds(part, 0, part.len());
    proof {
        assert(part@.subrange(0, part@.len() as int) =~= part@);
    }
    let trimmed = sub_vec(part, a, b);
    let lower = to_ascii_lowercase(trimmed.as_slice());
    let expected = chars_of("chunked");
    chars_eq(lower.as_slice(), expected.as_slice())
}

fn is_chunked(value: &str) -> (r: bool)
    ensures
        r == is_chunked_spec(value@),
{
    let s = chars_of(value);
    let mut found = false;
    let mut current: Vec<char> = Vec::new();
    let mut i: usize = 0;
    proof {
        assert(s@.take(0) =~= Seq::<char>::empty());
    }
    while i < s.len()
        invariant
            i <= s.len(),
            s@ == value@,
            comma_parts(s@.take(i as int)).len() >= 1,
            current@ == comma_parts(s@.take(i as int)).last(),
            found == exists|j: int|
                0 <= j < comma_parts(s@.take(i as int)).len() - 1 && is_chunked_token(
                    #[trigger] comma_parts(s@.take(i as int))[j],
                ),
        decreases s.len() - i,
    {
        let ghost before = comma_parts(s@.take(i as int));
        proof {
            assert(s@.take(i + 1).drop_last() =~= s@.take(i as int));
            assert(s@.take(i + 1).last() == s@[i as int]);
        }
        let c = s[i];
        if c == ',' {
            let done = is_chunked_part(current.as_slice());
            proof {
                let after = comma_parts(s@.take(i + 1));
                assert(after == before.push(Seq::<char>::empty()));
                if done {
                    assert(is_chunked_token(after[before.len() - 1]));
                }
                assert forall|j: int| 0 <= j < before.len() - 1 implies after[j] == before[j] by {}
            }
            found = found || done;
            current = Vec::new();
        } else {
            let ghost cur = current@;
            current.push(c);
            proof {
                let after = comma_parts(s@.take(i + 1));
                assert(after == before.update(before.len() - 1, cur.push(c)));
                assert forall|j: int| 0 <= j < before.len() - 1 implies after[j] == before[j] by {}
            }
        }
        i = i + 1;
    }
    proof {
        assert(s@.take(s@.len() as int) =~= s@);
    }
    let last = is_chunked_part(current.as_slice());
    proof {
        let parts = comma_parts(s@);
        if last {
            assert(is_chunked_token(parts[parts.len() - 1]));
        }
        if is_chunked_spec(value@) {
            let j = choose|j: int| 0 <= j < parts.len() && is_chunked_token(#[trigger] parts[j]);
            if j < parts.len() - 1 {
                assert(found);
            }
        }
    }
    found || last
}

/// The numeric value of a run of decimal digits.
pub open spec fn digits_value(d: Seq<char>) -> nat
    decreases d.len(),
{
    if d.len() == 0 {
        0
    } else {
        digits_value(d.drop_last()) * 10 + ((d.last() as nat) - 48) as nat
    }
}

pub open spec fn all_digits(d: Seq<char>) -> bool {
    forall|i: int| 0 <= i < d.len() ==> '0' <= #[trigger] d[i] <= '9'
}

/// `u64::from_str`: an optional `+`, then one or more decimal digits whose
/// value fits in a `u64`.
pub open spec fn parse_u64_spec(s: Seq<char>) -> Option<u64> {
    let d = if s.len() > 0 && s[0] == '+' {
        s.skip(1)
    } else {
        s
    };
    if d.len() > 0 && all_digits(d) && digits_value(d) <= u64::MAX {
        Some(digits_value(d) as u64)
    } else {
        None
    }
}

proof fn lemma_digits_value_grows(d: Seq<char>, i: int, j: int)
    requires
        0 <= i <= j <= d.len(),
        all_digits(d),
    ensures
        digits_value(d.take(i)) <= digits_value(d.take(j)),
    decreases j - i,
{
    if i < j {
        lemma_digits_value_grows(d, i, j - 1);
        assert(d.take(j).drop_last() =~= d.take(j - 1));
    }
}

/// Reads a decimal number as `u64::from_str` does.
pub(crate) fn parse_u64(text: &str) -> (r: Option<u64>)
    ensures
        r == parse_u64_spec(text@),
{
    let s = chars_of(text);
    let start: usize = if s.len() > 0 && s[0] == '+' {
        1
    } else {
        0
    };
    let ghost d = if s@.len() > 0 && s@[0] == '+' {
        s@.skip(1)
    } else {
        s@
    };
    assert(d =~= s@.skip(start as int));
    if start >= s.len() {
        return None;
    }
    let mut value: u64 = 0;
    let mut i: usize = start;
    while i < s.len()
        invariant
            start <= i <= s.len(),
            start < s.len(),
            s@ == text@,
            d == s@.skip(start as int),
            d == (if s@.len() > 0 && s@[0] == '+' {
                s@.skip(1)
            } else {
                s@
            }),
            forall|k: int| start <= k < i ==> '0' <= #[trigger] s@[k] <= '9',
            value == digits_value(d.take(i - start)),
        decreases s.len() - i,
    {
        let c = s[i];
        if c < '0' || c > '9' {
            proof {
                assert(d[i - start] == c);
            }
            return None;
        }
        let digit: u64 = (c as u32 - 48) as u64;
        proof {
            assert(d.take(i - start + 1).drop_last() =~= d.take(i - start));
            assert(d.take(i - start + 1).last() == c);
        }
        if value > (u64::MAX - digit) / 10 {
            proof {
                assert(digits_value(d.take(i - start + 1)) > u64::MAX) by (nonlinear_arith)
                    requires
                        value > (u64::MAX - digit) / 10,
                        digits_value(d.take(i - start + 1)) == value * 10 + digit,
                ;
                if all_digits(d) {
                    lemma_digits_value_grows(d, i - start + 1, d.len() as int);
                    assert(d.take(d.len() as int) =~= d);
                }
            }
            return None;
        }
        value = value * 10 + digit;
        i = i + 1;
    }
    proof {
        assert(d.take(d.len() as int) =~= d);
        assert forall|k: int| 0 <= k < d.len() implies '0' <= #[trigger] d[k] <= '9' by {
            assert(d[k] == s@[k + start]);
        }
    }
    Some(value)
}

/// The declared body length: the `Content-Length` value, unless
/// `Transfer-Encoding` lists chunked coding or the value is not a number.
/// Each argument is the header's first value, where it has one that is text.
pub open spec fn content_length_spec(transfer_encoding: Option<Seq<char>>, content_length: Option<Seq<char>>) -> Option<u64> {
    if transfer_encoding matches Some(te) && is_chunked_spec(te) {
        None
    } else {
        match content_length {
            Some(v) => parse_u64_spec(v),
            None => None,
        }
    }
}

/// The declared body length of a response, from the text of its
/// `Transfer-Encoding` and `Content-Length` headers.
pub fn parse_content_length(transfer_encoding: Option<&str>, content_length: Option<&str>) -> (r:
    Option<u64>)
    ensures
        r == content_length_spec(
            match transfer_encoding {
                Some(t) => Some(t@),
                None => None,
            },
            match content_length {
                Some(c) => Some(c@),
                None => None,
            },
        ),
{
    if let Some(te) = transfer_encoding {
        if is_chunked(te) {
            return None;
        }
    }
    match content_length {
        Some(v) => parse_u64(v),
        None => None,
    }
}

/// The protocol version of a response.
#[derive(Debug, Clone, Copy, PartialEq, Eq, Structural)]
pub enum HttpVersion {
    Http09,
    Http10,
    Http11,
    Http2,
    Http3,
    Other,
}

pub open spec fn http_version_label_spec(version: HttpVersion) -> Seq<char> {
    match version {
        HttpVersion::Http09 => "HTTP/0.9"@,
        HttpVersion::Http10 => "HTTP/1.0"@,
        HttpVersion::Http11 => "HTTP/1.1"@,
        HttpVersion::Http2 => "HTTP/2"@,
        HttpVersion::Http3 => "HTTP/3"@,
        HttpVersion::Other => "HTTP/?"@,
    }
}

/// The label shown for a protocol version.
pub fn http_version_label(version: HttpVersion) -> (r: String)
    ensures
        r@ == http_version_label_spec(version),
{
    match version {
        HttpVersion::Http09 => String::from_str("HTTP/0.9"),
        HttpVersion::Http10 => String::from_str("HTTP/1.0"),
        HttpVersion::Http11 => String::from_str("HTTP/1.1"),
        HttpVersion::Http2 => String::from_str("HTTP/2"),
        HttpVersion::Http3 => String::from_str("HTTP/3"),
        HttpVersion::Other => String::from_str("HTTP/?"),
    }
}


/// What has been received of a streaming response body: the preview kept so
/// far, the byte count, and whether the preview reached its cap.
#[derive(Debug, Clone, PartialEq, Eq)]
pub struct BodyStreamProgress {
    pub preview: Vec<u8>,
    pub total_written: u64,
    pub exceeded_preview_cap: bool,
}

/// One chunk taken in: counted in full, kept in the preview while the
/// preview has room under `cap`; the first chunk that does not fit is cut at
/// the cap and the preview is closed.
pub open spec fn stream_step(progress: (Seq<u8>, nat, bool), chunk: Seq<u8>, cap: nat) -> (
    Seq<u8>,
    nat,
    bool,
) {
    let (preview, total, exceeded) = progress;
    if exceeded {
        (preview, total + chunk.len(), true)
    } else if preview.len() + chunk.len() <= cap {
        (preview + chunk, total + chunk.len(), false)
    } else {
        (preview + chunk.take(cap - preview.len()), total + chunk.len(), true)
    }
}

/// The progress after a run of chunks, from nothing received.
pub open spec fn stream_after(chunks: Seq<Seq<u8>>, cap: nat) -> (Seq<u8>, nat, bool)
    decreases chunks.len(),
{
    if chunks.len() == 0 {
        (Seq::empty(), 0, false)
    } else {
        stream_step(stream_after(chunks.drop_last(), cap), chunks.last(), cap)
    }
}

/// All the bytes of a run of chunks, in order.
pub open spec fn concat_chunks(chunks: Seq<Seq<u8>>) -> Seq<u8>
    decreases chunks.len(),
{
    if chunks.len() == 0 {
        Seq::empty()
    } else {
        concat_chunks(chunks.drop_last()) + chunks.last()
    }
}

/// Whatever the chunks, the preview is the first `cap` bytes of the body
/// (all of it when shorter), the count is the body's length, and the preview
/// is marked as cut exactly when the body is longer than `cap`.
pub proof fn law_preview_is_capped_prefix(chunks: Seq<Seq<u8>>, cap: nat)
    ensures
        ({
            let body = concat_chunks(chunks);
            stream_after(chunks, cap) == (
                if body.len() <= cap {
                    body
                } else {
                    body.take(cap as int)
                },
                body.len(),
                body.len() > cap,
            )
        }),
    decreases chunks.len(),
{
    if chunks.len() > 0 {
        law_preview_is_capped_prefix(chunks.drop_last(), cap);
        let before = concat_chunks(chunks.drop_last());
        let chunk = chunks.last();
        let body = concat_chunks(chunks);
        assert(body == before + chunk);
        if before.len() > cap {
            assert(body.take(cap as int) =~= before.take(cap as int));
        } else if before.len() + chunk.len() > cap {
            assert(body.take(cap as int) =~= before + chunk.take(cap - before.len()));
        }
    } else {
        assert(concat_chunks(chunks) =~= Seq::<u8>::empty());
    }
}

impl BodyStreamProgress {
    pub open spec fn view_triple(&self) -> (Seq<u8>, nat, bool) {
        (self.preview@, self.total_written as nat, self.exceeded_preview_cap)
    }

    /// Nothing received yet.
    pub fn new() -> (r: Self)
        ensures
            r.view_triple() == (Seq::<u8>::empty(), 0nat, false),
    {
        BodyStreamProgress { preview: Vec::new(), total_written: 0, exceeded_preview_cap: false }
    }

    /// Takes in one chunk of the body.
    pub fn accept_chunk(&mut self, chunk: &[u8], cap: usize)
        requires
            old(self).total_written + chunk.len() <= u64::MAX,
            old(self).preview.len() <= cap,
        ensures
            final(self).view_triple() == stream_step(old(self).view_triple(), chunk@, cap as nat),
            final(self).preview.len() <= cap,
    {
        self.total_written = self.total_written + chunk.len() as u64;
        if !self.exceeded_preview_cap {
            let ghost before = self.preview@;
            if chunk.len() <= cap - self.preview.len() {
                let mut i: usize = 0;
                while i < chunk.len()
                    invariant
                        i <= chunk.len(),
                        self.preview@ == before + chunk@.take(i as int),
                        self.total_written == old(self).total_written + chunk.len(),
                        !self.exceeded_preview_cap,
                    decreases chunk.len() - i,
                {
                    self.preview.push(chunk[i]);
                    proof {
                        assert(chunk@.take(i + 1) =~= chunk@.take(i as int).push(chunk@[i as int]));
                    }
                    i = i + 1;
                }
                proof {
                    assert(chunk@.take(chunk@.len() as int) =~= chunk@);
                }
            } else {
                let remaining = cap - self.preview.len();
                let mut i: usize = 0;
                while i < remaining
                    invariant
                        i <= remaining,
                        remaining < chunk.len(),
                        self.preview@ == before + chunk@.take(i as int),
                        self.total_written == old(self).total_written + chunk.len(),
                        !self.exceeded_preview_cap,
                    decreases remaining - i,
                {
                    self.preview.push(chunk[i]);
                    proof {
                        assert(chunk@.take(i + 1) =~= chunk@.take(i as int).push(chunk@[i as int]));
                    }
                    i = i + 1;
                }
                self.exceeded_preview_cap = true;
            }
        }
    }

    /// The body reference once the stream ended: the preview alone when it
    /// holds the whole body, else the stored blob with the preview and the
    /// full size.
    pub fn finish(self, blob_hash: String) -> (r: BodyRef)
        ensures
            self.exceeded_preview_cap ==> r == (BodyRef::DiskBlob {
                blob_id: blob_hash,
                preview: Some(self.preview),
                size_bytes: self.total_written,
            }),
            !self.exceeded_preview_cap ==> r == (BodyRef::InMemoryPreview {
                bytes: self.preview,
                truncated: false,
            }),
    {
        if self.exceeded_preview_cap {
            BodyRef::DiskBlob {
                blob_id: blob_hash,
                preview: Some(self.preview),
                size_bytes: self.total_written,
            }
        } else {
            BodyRef::InMemoryPreview { bytes: self.preview, truncated: false }
        }
    }
}

/// What the peer certificate of a TLS connection tells.
#[derive(Debug, Clone, PartialEq, Eq)]
pub struct TlsSummary {
    pub protocol: Option<String>,
    pub cipher: Option<String>,
    pub certificate_cn: Option<String>,
    pub issuer_cn: Option<String>,
    pub valid_until: Option<i64>,
}

/// What a DER certificate parses to: `None` when it does not parse, else
/// the common names of the subject and of the issuer in order (each as
/// text, or `None` where it is not text) and the end of validity in Unix
/// seconds.
pub uninterp spec fn x509_fields(der: Seq<u8>) -> Option<
    (Seq<Option<Seq<char>>>, Seq<Option<Seq<char>>>, i64),
>;

pub open spec fn opt_string_view(o: Option<String>) -> Option<Seq<char>> {
    match o {
        Some(s) => Some(s@),
        None => None,
    }
}

/// Each common name as characters.
pub open spec fn common_names_view(names: Seq<Option<String>>) -> Seq<Option<Seq<char>>> {
    names.map_values(|o: Option<String>| opt_string_view(o))
}

pub open spec fn certificate_fields_view(
    fields: Option<(Vec<Option<String>>, Vec<Option<String>>, i64)>,
) -> Option<(Seq<Option<Seq<char>>>, Seq<Option<Seq<char>>>, i64)> {
    match fields {
        Some((subject, issuer, not_after)) => Some(
            (common_names_view(subject@), common_names_view(issuer@), not_after),
        ),
        None => None,
    }
}

/// Parses a DER certificate with `x509_parser::prelude::parse_x509_certificate`
/// and reads every common name of its subject and of its issuer (each as
/// text where it is text) and its `not_after` time in Unix seconds.
#[verifier::external_body]
fn certificate_fields(der: &[u8]) -> (r: Option<(Vec<Option<String>>, Vec<Option<String>>, i64)>)
    ensures
        certificate_fields_view(r) == x509_fields(der@),
{
    let (_, cert) = x509_parser::prelude::parse_x509_certificate(der).ok()?;
    let subject = cert.subject().iter_common_name().map(|cn| cn.as_str().ok().map(String::from));
    let issuer = cert.issuer().iter_common_name().map(|cn| cn.as_str().ok().map(String::from));
    Some((subject.collect(), issuer.collect(), cert.validity().not_after.timestamp()))
}

/// The first common name, when it is text.
pub open spec fn first_common_name_spec(names: Seq<Option<Seq<char>>>) -> Option<Seq<char>> {
    if names.len() > 0 {
        names[0]
    } else {
        None
    }
}

/// The first of a certificate's common names, when there is one and it is
/// text.
pub fn first_common_name(names: &Vec<Option<String>>) -> (r: Option<String>)
    ensures
        opt_string_view(r) == first_common_name_spec(common_names_view(names@)),
{
    if names.len() == 0 {
        return None;
    }
    match &names[0] {
        Some(name) => Some(name.clone()),
        None => None,
    }
}

/// The summary made of a parsed certificate's fields: its common names, and
/// its end of validity in milliseconds where that fits an `i64`.
pub fn tls_summary_from_fields(fields: Option<(Option<String>, Option<String>, i64)>) -> (r: Option<
    TlsSummary,
>)
    ensures
        fields is None ==> r is None,
        fields matches Some((subject, issuer, not_after)) ==> r == Some(
            TlsSummary {
                protocol: None,
                cipher: None,
                certificate_cn: subject,
                issuer_cn: issuer,
                valid_until: if not_after * 1000 > i64::MAX || not_after * 1000 < i64::MIN {
                    None
                } else {
                    Some((not_after * 1000) as i64)
                },
            },
        ),
{
    match fields {
        None => None,
        Some((subject, issuer, not_after)) => Some(
            TlsSummary {
                protocol: None,
                cipher: None,
                certificate_cn: subject,
                issuer_cn: issuer,
                valid_until: not_after.checked_mul(1000),
            },
        ),
    }
}

/// The summary of a peer certificate, when there is one and it parses.
pub fn parse_tls_summary(peer_cert_der: Option<&[u8]>) -> (r: Option<TlsSummary>)
    ensures
        peer_cert_der is None ==> r is None,
        peer_cert_der matches Some(der) ==> (r is Some <==> x509_fields(der@) is Some),
        peer_cert_der matches Some(der) ==> (r matches Some(t) ==> {
            let (subjects, issuers, not_after) = x509_fields(der@).unwrap();
            &&& opt_string_view(t.certificate_cn) == first_common_name_spec(subjects)
            &&& opt_string_view(t.issuer_cn) == first_common_name_spec(issuers)
            &&& t.valid_until == (if not_after * 1000 > i64::MAX || not_after * 1000 < i64::MIN {
                None
            } else {
                Some((not_after * 1000) as i64)
            })
            &&& t.protocol is None && t.cipher is None
        }),
{
    match peer_cert_der {
        None => None,
        Some(der) => match certificate_fields(der) {
            None => None,
            Some((subjects, issuers, not_after)) => tls_summary_from_fields(
                Some((first_common_name(&subjects), first_common_name(&issuers), not_after)),
            ),
        },
    }
}

/// The media type of a `Content-Type` value: the part before its first
/// `;`, trimmed.
pub open spec fn media_type_spec(content_type: Seq<char>) -> Seq<char> {
    match first_match(content_type, seq![';']) {
        Some(i) => trim(content_type.take(i)),
        None => trim(content_type),
    }
}

/// The media type of a `Content-Type` value: the part before its first
/// `;`, trimmed.
pub fn media_type_of(content_type: &str) -> (r: String)
    ensures
        r@ == media_type_spec(content_type@),
{
    let s = chars_of(content_type);
    let semicolon: Vec<char> = vec![';'];
    proof {
        assert(semicolon@ =~= seq![';']);
        assert(s@.subrange(0, s@.len() as int) =~= s@);
    }
    let end = match find_from(s.as_slice(), semicolon.as_slice(), 0) {
        Some(i) => i,
        None => s.len(),
    };
    proof {
        assert(s@.subrange(0, end as int) =~= s@.take(end as int));
    }
    let (a, b) = trim_bounds(s.as_slice(), 0, end);
    let part = sub_vec(s.as_slice(), a, b);
    string_of(part.as_slice())
}

} // verus!
