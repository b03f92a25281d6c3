//! The header variant: one tag per known request header field, with its
//! typed payload, plus an extension tag carrying an arbitrary name and a
//! free-text value; and the operations tying the tags to the wire format:
//! canonical names, full `Name: value\r\n` lines, and parsing a name/value
//! pair back into a variant.
use vstd::prelude::*;

use crate::date::{parse_date, push_date, spec_format_date, spec_parse_date, wf_date, HttpDate};
use crate::num::{parse_uint, push_uint, spec_digits, spec_parse_uint};
use crate::quoting::{
    lemma_quote_roundtrip, maybe_quote, maybe_unquote, spec_maybe_quote, spec_maybe_unquote,
};
use crate::tokens::{
    lemma_host_roundtrip, lemma_tokens_roundtrip, parse_host, parse_token_list, push_host,
    push_token_list, seqs_view, spec_format_host, spec_join_tokens, spec_parse_host,
    spec_parse_tokens, wf_host, wf_tokens, Host, HostView,
};
use crate::util::{bytes_eq, push_bytes, push_str_bytes};

verus! {

use vstd::string::StringSliceAdditionalSpecFns;

/// One header field occurrence: a known field with its typed value, or an
/// extension field carrying its name and free-text value verbatim.
pub enum Header {

    CacheControl(Vec<u8>),
    Connection(Vec<Vec<u8>>),
    Date(HttpDate),
    Pragma(Vec<u8>),
    Trailer(Vec<u8>),
    TransferEncoding(Vec<u8>),
    Upgrade(Vec<u8>),
    Via(Vec<u8>),
    Warning(Vec<u8>),
    Accept(Vec<u8>),
    AcceptCharset(Vec<u8>),
    AcceptEncoding(Vec<u8>),
    AcceptLanguage(Vec<u8>),
    Authorization(Vec<u8>),
    Expect(Vec<u8>),
    From(Vec<u8>),
    Host(Host),
    IfMatch(Vec<u8>),
    IfModifiedSince(HttpDate),
    IfNoneMatch(Vec<u8>),
    IfRange(Vec<u8>),
    IfUnmodifiedSince(HttpDate),
    MaxForwards(usize),
    ProxyAuthorization(Vec<u8>),
    Range(Vec<u8>),
    Referer(Vec<u8>),
    Te(Vec<u8>),
    UserAgent(Vec<u8>),
    Allow(Vec<Vec<u8>>),
    ContentEncoding(Vec<u8>),
    ContentLanguage(Vec<u8>),
    ContentLength(usize),
    ContentLocation(Vec<u8>),
    ContentMd5(Vec<u8>),
    ContentRange(Vec<u8>),
    ContentType(Vec<u8>),
    Expires(HttpDate),
    LastModified(HttpDate),
    ExtensionHeader(Vec<u8>, Vec<u8>),
}

/// The spec-level shape of a header variant.
pub ghost enum HeaderView {

    CacheControl(Seq<u8>),
    Connection(Seq<Seq<u8>>),
    Date(HttpDate),
    Pragma(Seq<u8>),
    Trailer(Seq<u8>),
    TransferEncoding(Seq<u8>),
    Upgrade(Seq<u8>),
    Via(Seq<u8>),
    Warning(Seq<u8>),
    Accept(Seq<u8>),
    AcceptCharset(Seq<u8>),
    AcceptEncoding(Seq<u8>),
    AcceptLanguage(Seq<u8>),
    Authorization(Seq<u8>),
    Expect(Seq<u8>),
    From(Seq<u8>),
    Host(HostView),
    IfMatch(Seq<u8>),
    IfModifiedSince(HttpDate),
    IfNoneMatch(Seq<u8>),
    IfRange(Seq<u8>),
    IfUnmodifiedSince(HttpDate),
    MaxForwards(usize),
    ProxyAuthorization(Seq<u8>),
    Range(Seq<u8>),
    Referer(Seq<u8>),
    Te(Seq<u8>),
    UserAgent(Seq<u8>),
    Allow(Seq<Seq<u8>>),
    ContentEncoding(Seq<u8>),
    ContentLanguage(Seq<u8>),
    ContentLength(usize),
    ContentLocation(Seq<u8>),
    ContentMd5(Seq<u8>),
    ContentRange(Seq<u8>),
    ContentType(Seq<u8>),
    Expires(HttpDate),
    LastModified(HttpDate),
    ExtensionHeader(Seq<u8>, Seq<u8>),
}

impl View for Header {
    type V = HeaderView;

    open spec fn view(&self) -> HeaderView {
        match self {

            Header::CacheControl(x) => HeaderView::CacheControl(x@),
            Header::Connection(x) => HeaderView::Connection(seqs_view(x@)),
            Header::Date(x) => HeaderView::Date(*x),
            Header::Pragma(x) => HeaderView::Pragma(x@),
            Header::Trailer(x) => HeaderView::Trailer(x@),
            Header::TransferEncoding(x) => HeaderView::TransferEncoding(x@),
            Header::Upgrade(x) => HeaderView::Upgrade(x@),
            Header::Via(x) => HeaderView::Via(x@),
            Header::Warning(x) => HeaderView::Warning(x@),
            Header::Accept(x) => HeaderView::Accept(x@),
            Header::AcceptCharset(x) => HeaderView::AcceptCharset(x@),
            Header::AcceptEncoding(x) => HeaderView::AcceptEncoding(x@),
            Header::AcceptLanguage(x) => HeaderView::AcceptLanguage(x@),
            Header::Authorization(x) => HeaderView::Authorization(x@),
            Header::Expect(x) => HeaderView::Expect(x@),
            Header::From(x) => HeaderView::From(x@),
            Header::Host(x) => HeaderView::Host(x@),
            Header::IfMatch(x) => HeaderView::IfMatch(x@),
            Header::IfModifiedSince(x) => HeaderView::IfModifiedSince(*x),
            Header::IfNoneMatch(x) => HeaderView::IfNoneMatch(x@),
            Header::IfRange(x) => HeaderView::IfRange(x@),
            Header::IfUnmodifiedSince(x) => HeaderView::IfUnmodifiedSince(*x),
            Header::MaxForwards(x) => HeaderView::MaxForwards(*x),
            Header::ProxyAuthorization(x) => HeaderView::ProxyAuthorization(x@),
            Header::Range(x) => HeaderView::Range(x@),
            Header::Referer(x) => HeaderView::Referer(x@),
            Header::Te(x) => HeaderView::Te(x@),
            Header::UserAgent(x) => HeaderView::UserAgent(x@),
            Header::Allow(x) => HeaderView::Allow(seqs_view(x@)),
            Header::ContentEncoding(x) => HeaderView::ContentEncoding(x@),
            Header::ContentLanguage(x) => HeaderView::ContentLanguage(x@),
            Header::ContentLength(x) => HeaderView::ContentLength(*x),
            Header::ContentLocation(x) => HeaderView::ContentLocation(x@),
            Header::ContentMd5(x) => HeaderView::ContentMd5(x@),
            Header::ContentRange(x) => HeaderView::ContentRange(x@),
            Header::ContentType(x) => HeaderView::ContentType(x@),
            Header::Expires(x) => HeaderView::Expires(*x),
            Header::LastModified(x) => HeaderView::LastModified(*x),
            Header::ExtensionHeader(n, x) => HeaderView::ExtensionHeader(n@, x@),
        }
    }
}

/// The payload ranges a variant must keep to be serializable: dates within
/// their calendar ranges, token lists non-empty and of bare tokens, host
/// names non-empty and colon-free. Text payloads carry any bytes.
pub open spec fn wf_header(h: HeaderView) -> bool {
    match h {

        HeaderView::CacheControl(_) => true,
        HeaderView::Connection(ts) => wf_tokens(ts),
        HeaderView::Date(d) => wf_date(d),
        HeaderView::Pragma(_) => true,
        HeaderView::Trailer(_) => true,
        HeaderView::TransferEncoding(_) => true,
        HeaderView::Upgrade(_) => true,
        HeaderView::Via(_) => true,
        HeaderView::Warning(_) => true,
        HeaderView::Accept(_) => true,
        HeaderView::AcceptCharset(_) => true,
        HeaderView::AcceptEncoding(_) => true,
        HeaderView::AcceptLanguage(_) => true,
        HeaderView::Authorization(_) => true,
        HeaderView::Expect(_) => true,
        HeaderView::From(_) => true,
        HeaderView::Host(h) => wf_host(h),
        HeaderView::IfMatch(_) => true,
        HeaderView::IfModifiedSince(d) => wf_date(d),
        HeaderView::IfNoneMatch(_) => true,
        HeaderView::IfRange(_) => true,
        HeaderView::IfUnmodifiedSince(d) => wf_date(d),
        HeaderView::MaxForwards(_) => true,
        HeaderView::ProxyAuthorization(_) => true,
        HeaderView::Range(_) => true,
        HeaderView::Referer(_) => true,
        HeaderView::Te(_) => true,
        HeaderView::UserAgent(_) => true,
        HeaderView::Allow(ts) => wf_tokens(ts),
        HeaderView::ContentEncoding(_) => true,
        HeaderView::ContentLanguage(_) => true,
        HeaderView::ContentLength(_) => true,
        HeaderView::ContentLocation(_) => true,
        HeaderView::ContentMd5(_) => true,
        HeaderView::ContentRange(_) => true,
        HeaderView::ContentType(_) => true,
        HeaderView::Expires(d) => wf_date(d),
        HeaderView::LastModified(d) => wf_date(d),
        HeaderView::ExtensionHeader(_, _) => true,
    }
}

/// The canonical wire spelling of a variant's field name; an extension
/// field keeps its stored name byte for byte.
pub open spec fn spec_header_name(h: HeaderView) -> Seq<u8> {
    match h {

        HeaderView::CacheControl(_) => "Cache-Control".spec_bytes(),
        HeaderView::Connection(_) => "Connection".spec_bytes(),
        HeaderView::Date(_) => "Date".spec_bytes(),
        HeaderView::Pragma(_) => "Pragma".spec_bytes(),
        HeaderView::Trailer(_) => "Trailer".spec_bytes(),
        HeaderView::TransferEncoding(_) => "Transfer-Encoding".spec_bytes(),
        HeaderView::Upgrade(_) => "Upgrade".spec_bytes(),
        HeaderView::Via(_) => "Via".spec_bytes(),
        HeaderView::Warning(_) => "Warning".spec_bytes(),
        HeaderView::Accept(_) => "Accept".spec_bytes(),
        HeaderView::AcceptCharset(_) => "Accept-Charset".spec_bytes(),
        HeaderView::AcceptEncoding(_) => "Accept-Encoding".spec_bytes(),
        HeaderView::AcceptLanguage(_) => "Accept-Language".spec_bytes(),
        HeaderView::Authorization(_) => "Authorization".spec_bytes(),
        HeaderView::Expect(_) => "Expect".spec_bytes(),
        HeaderView::From(_) => "From".spec_bytes(),
        HeaderView::Host(_) => "Host".spec_bytes(),
        HeaderView::IfMatch(_) => "If-Match".spec_bytes(),
        HeaderView::IfModifiedSince(_) => "If-Modified-Since".spec_bytes(),
        HeaderView::IfNoneMatch(_) => "If-None-Match".spec_bytes(),
        HeaderView::IfRange(_) => "If-Range".spec_bytes(),
        HeaderView::IfUnmodifiedSince(_) => "If-Unmodified-Since".spec_bytes(),
        HeaderView::MaxForwards(_) => "Max-Forwards".spec_bytes(),
        HeaderView::ProxyAuthorization(_) => "Proxy-Authorization".spec_bytes(),
        HeaderView::Range(_) => "Range".spec_bytes(),
        HeaderView::Referer(_) => "Referer".spec_bytes(),
        HeaderView::Te(_) => "TE".spec_bytes(),
        HeaderView::UserAgent(_) => "User-Agent".spec_bytes(),
        HeaderView::Allow(_) => "Allow".spec_bytes(),
        HeaderView::ContentEncoding(_) => "Content-Encoding".spec_bytes(),
        HeaderView::ContentLanguage(_) => "Content-Language".spec_bytes(),
        HeaderView::ContentLength(_) => "Content-Length".spec_bytes(),
        HeaderView::ContentLocation(_) => "Content-Location".spec_bytes(),
        HeaderView::ContentMd5(_) => "Content-MD5".spec_bytes(),
        HeaderView::ContentRange(_) => "Content-Range".spec_bytes(),
        HeaderView::ContentType(_) => "Content-Type".spec_bytes(),
        HeaderView::Expires(_) => "Expires".spec_bytes(),
        HeaderView::LastModified(_) => "Last-Modified".spec_bytes(),
        HeaderView::ExtensionHeader(n, _) => n,
    }
}

/// The wire form of a variant's value: its payload serialized by its kind;
/// an extension value goes through the quoting utility.
pub open spec fn spec_header_value(h: HeaderView) -> Seq<u8> {
    match h {

        HeaderView::CacheControl(x) => x,
        HeaderView::Connection(ts) => spec_join_tokens(ts),
        HeaderView::Date(d) => spec_format_date(d),
        HeaderView::Pragma(x) => x,
        HeaderView::Trailer(x) => x,
        HeaderView::TransferEncoding(x) => x,
        HeaderView::Upgrade(x) => x,
        HeaderView::Via(x) => x,
        HeaderView::Warning(x) => x,
        HeaderView::Accept(x) => x,
        HeaderView::AcceptCharset(x) => x,
        HeaderView::AcceptEncoding(x) => x,
        HeaderView::AcceptLanguage(x) => x,
        HeaderView::Authorization(x) => x,
        HeaderView::Expect(x) => x,
        HeaderView::From(x) => x,
        HeaderView::Host(h) => spec_format_host(h),
        HeaderView::IfMatch(x) => x,
        HeaderView::IfModifiedSince(d) => spec_format_date(d),
        HeaderView::IfNoneMatch(x) => x,
        HeaderView::IfRange(x) => x,
        HeaderView::IfUnmodifiedSince(d) => spec_format_date(d),
        HeaderView::MaxForwards(n) => spec_digits(n as nat),
        HeaderView::ProxyAuthorization(x) => x,
        HeaderView::Range(x) => x,
        HeaderView::Referer(x) => x,
        HeaderView::Te(x) => x,
        HeaderView::UserAgent(x) => x,
        HeaderView::Allow(ts) => spec_join_tokens(ts),
        HeaderView::ContentEncoding(x) => x,
        HeaderView::ContentLanguage(x) => x,
        HeaderView::ContentLength(n) => spec_digits(n as nat),
        HeaderView::ContentLocation(x) => x,
        HeaderView::ContentMd5(x) => x,
        HeaderView::ContentRange(x) => x,
        HeaderView::ContentType(x) => x,
        HeaderView::Expires(d) => spec_format_date(d),
        HeaderView::LastModified(d) => spec_format_date(d),
        HeaderView::ExtensionHeader(_, v) => spec_maybe_quote(v),
    }
}

/// The `": "` between a name and a value.
pub open spec fn colon_sp() -> Seq<u8> {
    ": ".spec_bytes()
}

/// The line terminator.
pub open spec fn crlf() -> Seq<u8> {
    "\r\n".spec_bytes()
}

/// The full wire line of a variant.
pub open spec fn spec_header_line(h: HeaderView) -> Seq<u8> {
    spec_header_name(h) + colon_sp() + spec_header_value(h) + crlf()
}

/// What parsing a name/value pair yields: the variant for the matching
/// table entry with its kind's parsed value, `None` when that kind rejects
/// the value, and an extension variant, unquoted, for any name outside the
/// table. Names match the table spelling exactly, case included.
pub open spec fn spec_parse_header(n: Seq<u8>, v: Seq<u8>) -> Option<HeaderView> {

    if n == "Cache-Control".spec_bytes() {
        Some(HeaderView::CacheControl(v))
    } else if n == "Connection".spec_bytes() {
        match spec_parse_tokens(v) {
            Some(ts) => Some(HeaderView::Connection(ts)),
            None => None,
        }
    } else if n == "Date".spec_bytes() {
        match spec_parse_date(v) {
            Some(d) => Some(HeaderView::Date(d)),
            None => None,
        }
    } else if n == "Pragma".spec_bytes() {
        Some(HeaderView::Pragma(v))
    } else if n == "Trailer".spec_bytes() {
        Some(HeaderView::Trailer(v))
    } else if n == "Transfer-Encoding".spec_bytes() {
        Some(HeaderView::TransferEncoding(v))
    } else if n == "Upgrade".spec_bytes() {
        Some(HeaderView::Upgrade(v))
    } else if n == "Via".spec_bytes() {
        Some(HeaderView::Via(v))
    } else if n == "Warning".spec_bytes() {
        Some(HeaderView::Warning(v))
    } else if n == "Accept".spec_bytes() {
        Some(HeaderView::Accept(v))
    } else if n == "Accept-Charset".spec_bytes() {
        Some(HeaderView::AcceptCharset(v))
    } else if n == "Accept-Encoding".spec_bytes() {
        Some(HeaderView::AcceptEncoding(v))
    } else if n == "Accept-Language".spec_bytes() {
        Some(HeaderView::AcceptLanguage(v))
    } else if n == "Authorization".spec_bytes() {
        Some(HeaderView::Authorization(v))
    } else if n == "Expect".spec_bytes() {
        Some(HeaderView::Expect(v))
    } else if n == "From".spec_bytes() {
        Some(HeaderView::From(v))
    } else if n == "Host".spec_bytes() {
        match spec_parse_host(v) {
            Some(h) => Some(HeaderView::Host(h)),
            None => None,
        }
    } else if n == "If-Match".spec_bytes() {
        Some(HeaderView::IfMatch(v))
    } else if n == "If-Modified-Since".spec_bytes() {
        match spec_parse_date(v) {
            Some(d) => Some(HeaderView::IfModifiedSince(d)),
            None => None,
        }
    } else if n == "If-NoneMatch".spec_bytes() {
        Some(HeaderView::IfNoneMatch(v))
    } else if n == "If-Range".spec_bytes() {
        Some(HeaderView::IfRange(v))
    } else if n == "If-Unmodified-Since".spec_bytes() {
        match spec_parse_date(v) {
            Some(d) => Some(HeaderView::IfUnmodifiedSince(d)),
            None => None,
        }
    } else if n == "Max-Forwards".spec_bytes() {
        match spec_parse_uint(v, usize::MAX as nat) {
            Some(x) => Some(HeaderView::MaxForwards(x as usize)),
            None => None,
        }
    } else if n == "Proxy-Authorization".spec_bytes() {
        Some(HeaderView::ProxyAuthorization(v))
    } else if n == "Range".spec_bytes() {
        Some(HeaderView::Range(v))
    } else if n == "Referer".spec_bytes() {
        Some(HeaderView::Referer(v))
    } else if n == "Te".spec_bytes() {
        Some(HeaderView::Te(v))
    } else if n == "User-Agent".spec_bytes() {
        Some(HeaderView::UserAgent(v))
    } else if n == "Allow".spec_bytes() {
        match spec_parse_tokens(v) {
            Some(ts) => Some(HeaderView::Allow(ts)),
            None => None,
        }
    } else if n == "Content-Encoding".spec_bytes() {
        Some(HeaderView::ContentEncoding(v))
    } else if n == "Content-Language".spec_bytes() {
        Some(HeaderView::ContentLanguage(v))
    } else if n == "Content-Length".spec_bytes() {
        match spec_parse_uint(v, usize::MAX as nat) {
            Some(x) => Some(HeaderView::ContentLength(x as usize)),
            None => None,
        }
    } else if n == "Content-Location".spec_bytes() {
        Some(HeaderView::ContentLocation(v))
    } else if n == "Content-Md5".spec_bytes() {
        Some(HeaderView::ContentMd5(v))
    } else if n == "Content-Range".spec_bytes() {
        Some(HeaderView::ContentRange(v))
    } else if n == "Content-Type".spec_bytes() {
        Some(HeaderView::ContentType(v))
    } else if n == "Expires".spec_bytes() {
        match spec_parse_date(v) {
            Some(d) => Some(HeaderView::Expires(d)),
            None => None,
        }
    } else if n == "Last-Modified".spec_bytes() {
        match spec_parse_date(v) {
            Some(d) => Some(HeaderView::LastModified(d)),
            None => None,
        }
    } else {
        Some(HeaderView::ExtensionHeader(n, spec_maybe_unquote(v)))
    }
}

/// Whether a name is one of the table spellings that parsing dispatches on.
pub open spec fn is_table_name(n: Seq<u8>) -> bool {

    n == "Cache-Control".spec_bytes()
        || n == "Connection".spec_bytes()
        || n == "Date".spec_bytes()
        || n == "Pragma".spec_bytes()
        || n == "Trailer".spec_bytes()
        || n == "Transfer-Encoding".spec_bytes()
        || n == "Upgrade".spec_bytes()
        || n == "Via".spec_bytes()
        || n == "Warning".spec_bytes()
        || n == "Accept".spec_bytes()
        || n == "Accept-Charset".spec_bytes()
        || n == "Accept-Encoding".spec_bytes()
        || n == "Accept-Language".spec_bytes()
        || n == "Authorization".spec_bytes()
        || n == "Expect".spec_bytes()
        || n == "From".spec_bytes()
        || n == "Host".spec_bytes()
        || n == "If-Match".spec_bytes()
        || n == "If-Modified-Since".spec_bytes()
        || n == "If-NoneMatch".spec_bytes()
        || n == "If-Range".spec_bytes()
        || n == "If-Unmodified-Since".spec_bytes()
        || n == "Max-Forwards".spec_bytes()
        || n == "Proxy-Authorization".spec_bytes()
        || n == "Range".spec_bytes()
        || n == "Referer".spec_bytes()
        || n == "Te".spec_bytes()
        || n == "User-Agent".spec_bytes()
        || n == "Allow".spec_bytes()
        || n == "Content-Encoding".spec_bytes()
        || n == "Content-Language".spec_bytes()
        || n == "Content-Length".spec_bytes()
        || n == "Content-Location".spec_bytes()
        || n == "Content-Md5".spec_bytes()
        || n == "Content-Range".spec_bytes()
        || n == "Content-Type".spec_bytes()
        || n == "Expires".spec_bytes()
        || n == "Last-Modified".spec_bytes()
}

/// Copies a byte slice into a fresh vector.
fn to_vec_bytes(s: &[u8]) -> (r: Vec<u8>)
    ensures
        r@ == s@,
{
    let mut r: Vec<u8> = Vec::new();
    push_bytes(&mut r, s);
    proof {
        assert(r@ =~= s@);
    }
    r
}

/// The bytes of an ASCII string literal as a fresh vector.
fn str_to_vec(s: &str) -> (r: Vec<u8>)
    ensures
        r@ == s.spec_bytes(),
{
    let mut r: Vec<u8> = Vec::new();
    push_str_bytes(&mut r, s);
    proof {
        assert(r@ =~= s.spec_bytes());
    }
    r
}

/// Appends `name: value\r\n` for a text-valued field.
pub(crate) fn push_line_text(out: &mut Vec<u8>, name: &str, v: &[u8])
    ensures
        final(out)@ == old(out)@ + (name.spec_bytes() + colon_sp() + v@ + crlf()),
{
    push_str_bytes(out, name);
    push_str_bytes(out, ": ");
    push_bytes(out, v);
    push_str_bytes(out, "\r\n");
    proof {
        assert(out@ =~= old(out)@ + (name.spec_bytes() + colon_sp() + v@ + crlf()));
    }
}

/// Appends `name: value\r\n` for a date-valued field.
pub(crate) fn push_line_date(out: &mut Vec<u8>, name: &str, d: &HttpDate)
    requires
        wf_date(*d),
    ensures
        final(out)@ == old(out)@ + (name.spec_bytes() + colon_sp() + spec_format_date(*d) + crlf()),
{
    push_str_bytes(out, name);
    push_str_bytes(out, ": ");
    push_date(out, d);
    push_str_bytes(out, "\r\n");
    proof {
        assert(out@ =~= old(out)@ + (name.spec_bytes() + colon_sp() + spec_format_date(*d)
            + crlf()));
    }
}

/// Appends `name: value\r\n` for an integer-valued field.
pub(crate) fn push_line_uint(out: &mut Vec<u8>, name: &str, n: usize)
    ensures
        final(out)@ == old(out)@ + (name.spec_bytes() + colon_sp() + spec_digits(n as nat)
            + crlf()),
{
    push_str_bytes(out, name);
    push_str_bytes(out, ": ");
    push_uint(out, n);
    push_str_bytes(out, "\r\n");
    proof {
        assert(out@ =~= old(out)@ + (name.spec_bytes() + colon_sp() + spec_digits(n as nat)
            + crlf()));
    }
}

/// Appends `name: value\r\n` for a token-list field.
pub(crate) fn push_line_tokens(out: &mut Vec<u8>, name: &str, ts: &Vec<Vec<u8>>)
    requires
        ts@.len() > 0,
    ensures
        final(out)@ == old(out)@ + (name.spec_bytes() + colon_sp() + spec_join_tokens(
            seqs_view(ts@),
        ) + crlf()),
{
    push_str_bytes(out, name);
    push_str_bytes(out, ": ");
    push_token_list(out, ts);
    push_str_bytes(out, "\r\n");
    proof {
        assert(out@ =~= old(out)@ + (name.spec_bytes() + colon_sp() + spec_join_tokens(
            seqs_view(ts@),
        ) + crlf()));
    }
}

/// Appends `name: value\r\n` for the host field.
pub(crate) fn push_line_host(out: &mut Vec<u8>, name: &str, h: &Host)
    ensures
        final(out)@ == old(out)@ + (name.spec_bytes() + colon_sp() + spec_format_host(h@) + crlf()),
{
    push_str_bytes(out, name);
    push_str_bytes(out, ": ");
    push_host(out, h);
    push_str_bytes(out, "\r\n");
    proof {
        assert(out@ =~= old(out)@ + (name.spec_bytes() + colon_sp() + spec_format_host(h@)
            + crlf()));
    }
}

/// Appends `name: value\r\n` for an extension field, quoting the value
/// when it needs it.
pub fn push_line_ext(out: &mut Vec<u8>, name: &[u8], v: &[u8])
    ensures
        final(out)@ == old(out)@ + (name@ + colon_sp() + spec_maybe_quote(v@) + crlf()),
{
    push_bytes(out, name);
    push_str_bytes(out, ": ");
    let q = maybe_quote(v);
    push_bytes(out, q.as_slice());
    push_str_bytes(out, "\r\n");
    proof {
        assert(out@ =~= old(out)@ + (name@ + colon_sp() + spec_maybe_quote(v@) + crlf()));
    }
}

impl Header {
    /// Returns the canonical wire spelling of this field's name; an
    /// extension header returns its stored name verbatim.
    pub fn header_name(&self) -> (r: Vec<u8>)
        ensures
            r@ == spec_header_name(self@),
    {
        match self {

            Header::CacheControl(_) => str_to_vec("Cache-Control"),
            Header::Connection(_) => str_to_vec("Connection"),
            Header::Date(_) => str_to_vec("Date"),
            Header::Pragma(_) => str_to_vec("Pragma"),
            Header::Trailer(_) => str_to_vec("Trailer"),
            Header::TransferEncoding(_) => str_to_vec("Transfer-Encoding"),
            Header::Upgrade(_) => str_to_vec("Upgrade"),
            Header::Via(_) => str_to_vec("Via"),
            Header::Warning(_) => str_to_vec("Warning"),
            Header::Accept(_) => str_to_vec("Accept"),
            Header::AcceptCharset(_) => str_to_vec("Accept-Charset"),
            Header::AcceptEncoding(_) => str_to_vec("Accept-Encoding"),
            Header::AcceptLanguage(_) => str_to_vec("Accept-Language"),
            Header::Authorization(_) => str_to_vec("Authorization"),
            Header::Expect(_) => str_to_vec("Expect"),
            Header::From(_) => str_to_vec("From"),
            Header::Host(_) => str_to_vec("Host"),
            Header::IfMatch(_) => str_to_vec("If-Match"),
            Header::IfModifiedSince(_) => str_to_vec("If-Modified-Since"),
            Header::IfNoneMatch(_) => str_to_vec("If-None-Match"),
            Header::IfRange(_) => str_to_vec("If-Range"),
            Header::IfUnmodifiedSince(_) => str_to_vec("If-Unmodified-Since"),
            Header::MaxForwards(_) => str_to_vec("Max-Forwards"),
            Header::ProxyAuthorization(_) => str_to_vec("Proxy-Authorization"),
            Header::Range(_) => str_to_vec("Range"),
            Header::Referer(_) => str_to_vec("Referer"),
            Header::Te(_) => str_to_vec("TE"),
            Header::UserAgent(_) => str_to_vec("User-Agent"),
            Header::Allow(_) => str_to_vec("Allow"),
            Header::ContentEncoding(_) => str_to_vec("Content-Encoding"),
            Header::ContentLanguage(_) => str_to_vec("Content-Language"),
            Header::ContentLength(_) => str_to_vec("Content-Length"),
            Header::ContentLocation(_) => str_to_vec("Content-Location"),
            Header::ContentMd5(_) => str_to_vec("Content-MD5"),
            Header::ContentRange(_) => str_to_vec("Content-Range"),
            Header::ContentType(_) => str_to_vec("Content-Type"),
            Header::Expires(_) => str_to_vec("Expires"),
            Header::LastModified(_) => str_to_vec("Last-Modified"),
            Header::ExtensionHeader(n, _) => to_vec_bytes(n.as_slice()),
        }
    }

    /// Appends this header's full wire line, `Name: value\r\n`, to a byte
    /// sink.
    pub fn write_header(&self, out: &mut Vec<u8>)
        requires
            wf_header(self@),
        ensures
            final(out)@ == old(out)@ + spec_header_line(self@),
    {
        match self {

            Header::CacheControl(v) => push_line_text(out, "Cache-Control", v.as_slice()),
            Header::Connection(ts) => push_line_tokens(out, "Connection", ts),
            Header::Date(d) => push_line_date(out, "Date", d),
            Header::Pragma(v) => push_line_text(out, "Pragma", v.as_slice()),
            Header::Trailer(v) => push_line_text(out, "Trailer", v.as_slice()),
            Header::TransferEncoding(v) => push_line_text(out, "Transfer-Encoding", v.as_slice()),
            Header::Upgrade(v) => push_line_text(out, "Upgrade", v.as_slice()),
            Header::Via(v) => push_line_text(out, "Via", v.as_slice()),
            Header::Warning(v) => push_line_text(out, "Warning", v.as_slice()),
            Header::Accept(v) => push_line_text(out, "Accept", v.as_slice()),
            Header::AcceptCharset(v) => push_line_text(out, "Accept-Charset", v.as_slice()),
            Header::AcceptEncoding(v) => push_line_text(out, "Accept-Encoding", v.as_slice()),
            Header::AcceptLanguage(v) => push_line_text(out, "Accept-Language", v.as_slice()),
            Header::Authorization(v) => push_line_text(out, "Authorization", v.as_slice()),
            Header::Expect(v) => push_line_text(out, "Expect", v.as_slice()),
            Header::From(v) => push_line_text(out, "From", v.as_slice()),
            Header::Host(h) => push_line_host(out, "Host", h),
            Header::IfMatch(v) => push_line_text(out, "If-Match", v.as_slice()),
            Header::IfModifiedSince(d) => push_line_date(out, "If-Modified-Since", d),
            Header::IfNoneMatch(v) => push_line_text(out, "If-None-Match", v.as_slice()),
            Header::IfRange(v) => push_line_text(out, "If-Range", v.as_slice()),
            Header::IfUnmodifiedSince(d) => push_line_date(out, "If-Unmodified-Since", d),
            Header::MaxForwards(n) => push_line_uint(out, "Max-Forwards", *n),
            Header::ProxyAuthorization(v) => push_line_text(out, "Proxy-Authorization", v.as_slice()),
            Header::Range(v) => push_line_text(out, "Range", v.as_slice()),
            Header::Referer(v) => push_line_text(out, "Referer", v.as_slice()),
            Header::Te(v) => push_line_text(out, "TE", v.as_slice()),
            Header::UserAgent(v) => push_line_text(out, "User-Agent", v.as_slice()),
            Header::Allow(ts) => push_line_tokens(out, "Allow", ts),
            Header::ContentEncoding(v) => push_line_text(out, "Content-Encoding", v.as_slice()),
            Header::ContentLanguage(v) => push_line_text(out, "Content-Language", v.as_slice()),
            Header::ContentLength(n) => push_line_uint(out, "Content-Length", *n),
            Header::ContentLocation(v) => push_line_text(out, "Content-Location", v.as_slice()),
            Header::ContentMd5(v) => push_line_text(out, "Content-MD5", v.as_slice()),
            Header::ContentRange(v) => push_line_text(out, "Content-Range", v.as_slice()),
            Header::ContentType(v) => push_line_text(out, "Content-Type", v.as_slice()),
            Header::Expires(d) => push_line_date(out, "Expires", d),
            Header::LastModified(d) => push_line_date(out, "Last-Modified", d),
            Header::ExtensionHeader(n, v) => push_line_ext(out, n.as_slice(), v.as_slice()),
        }
    }

    /// Parses one header occurrence from its name and its unfolded value
    /// bytes: a known name dispatches to its kind's parser and yields
    /// `None` when that parser rejects the value; any other name always
    /// yields an extension header with the value unquoted.
    #[verifier::rlimit(100)]
    pub fn value_from_stream(name: &[u8], value: &[u8]) -> (r: Option<Header>)
        ensures
            match r {
                Some(h) => spec_parse_header(name@, value@) == Some(h@),
                None => spec_parse_header(name@, value@) is None,
            },
    {

        if bytes_eq(name, "Cache-Control".as_bytes()) {
            Some(Header::CacheControl(to_vec_bytes(value)))
        } else if bytes_eq(name, "Connection".as_bytes()) {
            match parse_token_list(value) {
                Some(ts) => Some(Header::Connection(ts)),
                None => None,
            }
        } else if bytes_eq(name, "Date".as_bytes()) {
            match parse_date(value) {
                Some(d) => Some(Header::Date(d)),
                None => None,
            }
        } else if bytes_eq(name, "Pragma".as_bytes()) {
            Some(Header::Pragma(to_vec_bytes(value)))
        } else if bytes_eq(name, "Trailer".as_bytes()) {
            Some(Header::Trailer(to_vec_bytes(value)))
        } else if bytes_eq(name, "Transfer-Encoding".as_bytes()) {
            Some(Header::TransferEncoding(to_vec_bytes(value)))
        } else if bytes_eq(name, "Upgrade".as_bytes()) {
            Some(Header::Upgrade(to_vec_bytes(value)))
        } else if bytes_eq(name, "Via".as_bytes()) {
            Some(Header::Via(to_vec_bytes(value)))
        } else if bytes_eq(name, "Warning".as_bytes()) {
            Some(Header::Warning(to_vec_bytes(value)))
        } else if bytes_eq(name, "Accept".as_bytes()) {
            Some(Header::Accept(to_vec_bytes(value)))
        } else if bytes_eq(name, "Accept-Charset".as_bytes()) {
            Some(Header::AcceptCharset(to_vec_bytes(value)))
        } else if bytes_eq(name, "Accept-Encoding".as_bytes()) {
            Some(Header::AcceptEncoding(to_vec_bytes(value)))
        } else if bytes_eq(name, "Accept-Language".as_bytes()) {
            Some(Header::AcceptLanguage(to_vec_bytes(value)))
        } else if bytes_eq(name, "Authorization".as_bytes()) {
            Some(Header::Authorization(to_vec_bytes(value)))
        } else if bytes_eq(name, "Expect".as_bytes()) {
            Some(Header::Expect(to_vec_bytes(value)))
        } else if bytes_eq(name, "From".as_bytes()) {
            Some(Header::From(to_vec_bytes(value)))
        } else if bytes_eq(name, "Host".as_bytes()) {
            match parse_host(value) {
                Some(h) => Some(Header::Host(h)),
                None => None,
            }
        } else if bytes_eq(name, "If-Match".as_bytes()) {
            Some(Header::IfMatch(to_vec_bytes(value)))
        } else if bytes_eq(name, "If-Modified-Since".as_bytes()) {
            match parse_date(value) {
                Some(d) => Some(Header::IfModifiedSince(d)),
                None => None,
            }
        } else if bytes_eq(name, "If-NoneMatch".as_bytes()) {
            Some(Header::IfNoneMatch(to_vec_bytes(value)))
        } else if bytes_eq(name, "If-Range".as_bytes()) {
            Some(Header::IfRange(to_vec_bytes(value)))
        } else if bytes_eq(name, "If-Unmodified-Since".as_bytes()) {
            match parse_date(value) {
                Some(d) => Some(Header::IfUnmodifiedSince(d)),
                None => None,
            }
        } else if bytes_eq(name, "Max-Forwards".as_bytes()) {
            match parse_uint(value, usize::MAX) {
                Some(x) => Some(Header::MaxForwards(x)),
                None => None,
            }
        } else if bytes_eq(name, "Proxy-Authorization".as_bytes()) {
            Some(Header::ProxyAuthorization(to_vec_bytes(value)))
        } else if bytes_eq(name, "Range".as_bytes()) {
            Some(Header::Range(to_vec_bytes(value)))
        } else if bytes_eq(name, "Referer".as_bytes()) {
            Some(Header::Referer(to_vec_bytes(value)))
        } else if bytes_eq(name, "Te".as_bytes()) {
            Some(Header::Te(to_vec_bytes(value)))
        } else if bytes_eq(name, "User-Agent".as_bytes()) {
            Some(Header::UserAgent(to_vec_bytes(value)))
        } else if bytes_eq(name, "Allow".as_bytes()) {
            match parse_token_list(value) {
                Some(ts) => Some(Header::Allow(ts)),
                None => None,
            }
        } else if bytes_eq(name, "Content-Encoding".as_bytes()) {
            Some(Header::ContentEncoding(to_vec_bytes(value)))
        } else if bytes_eq(name, "Content-Language".as_bytes()) {
            Some(Header::ContentLanguage(to_vec_bytes(value)))
        } else if bytes_eq(name, "Content-Length".as_bytes()) {
            match parse_uint(value, usize::MAX) {
                Some(x) => Some(Header::ContentLength(x)),
                None => None,
            }
        } else if bytes_eq(name, "Content-Location".as_bytes()) {
            Some(Header::ContentLocation(to_vec_bytes(value)))
        } else if bytes_eq(name, "Content-Md5".as_bytes()) {
            Some(Header::ContentMd5(to_vec_bytes(value)))
        } else if bytes_eq(name, "Content-Range".as_bytes()) {
            Some(Header::ContentRange(to_vec_bytes(value)))
        } else if bytes_eq(name, "Content-Type".as_bytes()) {
            Some(Header::ContentType(to_vec_bytes(value)))
        } else if bytes_eq(name, "Expires".as_bytes()) {
            match parse_date(value) {
                Some(d) => Some(Header::Expires(d)),
                None => None,
            }
        } else if bytes_eq(name, "Last-Modified".as_bytes()) {
            match parse_date(value) {
                Some(d) => Some(Header::LastModified(d)),
                None => None,
            }
        } else {
            Some(Header::ExtensionHeader(to_vec_bytes(name), maybe_unquote(value)))
        }
    }
}

} // verus!

