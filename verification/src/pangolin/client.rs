//! Taking pangolin's answers: conditional requests, size limits and digests.

use vstd::prelude::*;
use vstd::string::*;
use vstd::utf8::*;

use crate::digest::{body_digest, hex_of, sha256_of};
use crate::pangolin::types::TraefikDynamicConfig;
use crate::text;
use crate::text::dec;

verus! {

/// Result of polling pangolin once.
pub enum FetchOutcome {
    /// Pangolin returned `304 Not Modified`: the caller should skip reconciliation.
    NotModified,
    /// New configuration. `digest` is a sha256 over the raw response body so callers can
    /// short-circuit when the ETag is absent but the body is unchanged.
    Changed(Box<ChangedConfig>),
}

pub struct ChangedConfig {
    pub config: TraefikDynamicConfig,
    pub etag: Option<String>,
    pub digest: String,
    pub raw_bytes: usize,
}

/// Why an answer of pangolin is not taken.
pub enum FetchError {
    /// The status says that the request failed; the status and the start of the body.
    Refused { status: String, body: String },
    /// The body is larger than allowed.
    TooLarge { bytes: u64, limit: u64 },
}

pub enum FetchErrorView {
    Refused { status: Seq<char>, body: Seq<char> },
    TooLarge { bytes: u64, limit: u64 },
}

impl DeepView for FetchError {
    type V = FetchErrorView;

    open spec fn deep_view(&self) -> FetchErrorView {
        match self {
            FetchError::Refused { status, body } => FetchErrorView::Refused {
                status: status@,
                body: body@,
            },
            FetchError::TooLarge { bytes, limit } => FetchErrorView::TooLarge {
                bytes: *bytes,
                limit: *limit,
            },
        }
    }
}

pub open spec fn error_text(e: FetchErrorView) -> Seq<char> {
    match e {
        FetchErrorView::Refused { status, body } => "pangolin returned "@ + status + ": "@ + body,
        FetchErrorView::TooLarge { bytes, limit } => "pangolin response is "@ + dec(bytes as nat)
            + " bytes, exceeds CONFIG_MAX_RESPONSE_BODY_BYTES="@ + dec(limit as nat),
    }
}

impl FetchError {
    pub fn message(&self) -> (r: String)
        ensures
            r@ == error_text(self.deep_view()),
    {
        match self {
            FetchError::Refused { status, body } => {
                let mut out = text::cat3("pangolin returned ", status.as_str(), ": ");
                out.append(body.as_str());
                out
            },
            FetchError::TooLarge { bytes, limit } => {
                let mut out = text::cat3(
                    "pangolin response is ",
                    text::decimal(*bytes).as_str(),
                    " bytes, exceeds CONFIG_MAX_RESPONSE_BODY_BYTES=",
                );
                out.append(text::decimal(*limit).as_str());
                out
            },
        }
    }
}

pub open spec fn optional_header(name: Seq<char>, value: Option<Seq<char>>) -> Seq<
    (Seq<char>, Seq<char>),
> {
    match value {
        Some(v) => seq![(name, v)],
        None => Seq::empty(),
    }
}

/// The headers of a conditional request.
pub open spec fn headers_of_request(
    auth: Option<Seq<char>>,
    last_etag: Option<Seq<char>>,
) -> Seq<(Seq<char>, Seq<char>)> {
    seq![("accept"@, "application/json"@)] + optional_header("authorization"@, auth)
        + optional_header("if-none-match"@, last_etag)
}

fn add_header(headers: &mut Vec<(String, String)>, name: &str, value: &Option<String>)
    ensures
        final(headers).deep_view() == old(headers).deep_view() + optional_header(
            name@,
            value.deep_view(),
        ),
{
    let ghost before = headers.deep_view();
    match value {
        Some(v) => {
            headers.push((name.to_owned(), v.clone()));
            assert(headers.deep_view() =~= before + seq![(name@, v@)]);
        },
        None => {
            assert(before + Seq::<(Seq<char>, Seq<char>)>::empty() =~= before);
        },
    }
}

/// The headers of a conditional GET against pangolin's traefik-config provider.
pub fn request_headers(auth_header: &Option<String>, last_etag: &Option<String>) -> (r: Vec<
    (String, String),
>)
    ensures
        r.deep_view() == headers_of_request(auth_header.deep_view(), last_etag.deep_view()),
{
    let mut headers = vec![("accept".to_owned(), "application/json".to_owned())];
    assert(headers.deep_view() =~= seq![("accept"@, "application/json"@)]);
    add_header(&mut headers, "authorization", auth_header);
    add_header(&mut headers, "if-none-match", last_etag);
    headers
}

/// What the head of a response asks for.
#[derive(Debug, Clone, Copy, PartialEq, Eq, Structural)]
pub enum HeadDecision {
    NotModified,
    /// The request failed: read the body as text and see [`refuse`].
    Refuse,
    /// The announced body is too large.
    TooLarge,
    /// Read the body and see [`accept_body`].
    Read,
}

pub open spec fn head_decision(
    status: u16,
    content_length: Option<u64>,
    limit: u64,
) -> HeadDecision {
    if status == 304 {
        HeadDecision::NotModified
    } else if !(200 <= status < 300) {
        HeadDecision::Refuse
    } else if content_length is Some && content_length->0 > limit {
        HeadDecision::TooLarge
    } else {
        HeadDecision::Read
    }
}

/// Judge a response by its status and announced length.
pub fn judge_head(status: u16, content_length: Option<u64>, limit: u64) -> (r: HeadDecision)
    ensures
        r == head_decision(status, content_length, limit),
{
    if status == 304 {
        return HeadDecision::NotModified;
    }
    if status < 200 || 300 <= status {
        return HeadDecision::Refuse;
    }
    if let Some(len) = content_length {
        if len > limit {
            return HeadDecision::TooLarge;
        }
    }
    HeadDecision::Read
}

/// The last boundary between characters at or before a byte index.
pub open spec fn boundary(bytes: Seq<u8>, i: int) -> int
    decreases i,
{
    if i <= 0 || is_char_boundary(bytes, i) {
        i
    } else {
        boundary(bytes, i - 1)
    }
}

/// The bytes of the longest prefix of whole characters of at most `max` bytes.
pub open spec fn truncated(bytes: Seq<u8>, max: int) -> Seq<u8> {
    if bytes.len() <= max {
        bytes
    } else {
        bytes.take(boundary(bytes, max))
    }
}

/// The text cut to at most `max` bytes, at a boundary between characters.
pub fn truncate(s: &str, max: usize) -> (r: String)
    ensures
        encode_utf8(r@) == truncated(encode_utf8(s@), max as int),
{
    if s.as_bytes().len() <= max {
        return s.to_owned();
    }
    let mut idx: usize = max;
    while idx > 0 && !s.is_char_boundary(idx)
        invariant
            idx <= max < encode_utf8(s@).len(),
            boundary(encode_utf8(s@), idx as int) == boundary(encode_utf8(s@), max as int),
        decreases idx,
    {
        idx -= 1;
    }
    proof {
        encode_utf8_valid_utf8(s@);
        is_char_boundary_start_end_of_seq(encode_utf8(s@));
    }
    let (head, _) = s.split_at(idx);
    assert(encode_utf8(head@) =~= encode_utf8(s@).take(idx as int));
    head.to_owned()
}

/// The error of a failed request: the status and the first 512 bytes of the body.
pub fn refuse(status: &str, body: &str) -> (r: FetchError)
    ensures
        r matches FetchError::Refused { status: s, body: b } && s@ == status@ && encode_utf8(b@)
            == truncated(encode_utf8(body@), 512),
{
    FetchError::Refused { status: status.to_owned(), body: truncate(body, 512) }
}

/// Take the raw body of a response, unless it is too large: its digest.
pub fn accept_body(raw: &Vec<u8>, limit: u64) -> (r: Result<String, FetchError>)
    ensures
        match r {
            Ok(digest) => raw@.len() <= limit && digest@ == hex_of(sha256_of(raw@)),
            Err(e) => raw@.len() > limit && e.deep_view() == (FetchErrorView::TooLarge {
                bytes: raw@.len() as u64,
                limit,
            }),
        },
{
    let bytes: u64 = raw.len() as u64;
    if bytes > limit {
        Err(FetchError::TooLarge { bytes, limit })
    } else {
        Ok(body_digest(raw))
    }
}

/// The outcome of a fetch whose body was taken and decoded.
pub fn changed(
    config: TraefikDynamicConfig,
    etag: Option<String>,
    digest: String,
    raw_bytes: usize,
) -> (r: FetchOutcome)
    ensures
        r matches FetchOutcome::Changed(c) && c.config == config && c.etag == etag && c.digest
            == digest && c.raw_bytes == raw_bytes,
{
    FetchOutcome::Changed(Box::new(ChangedConfig { config, etag, digest, raw_bytes }))
}

} // verus!
