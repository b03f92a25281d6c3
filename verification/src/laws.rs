//! The round-trip law of the codec: parsing the wire form of a
//! serializable variant under its canonical name returns the same variant,
//! for every field whose canonical spelling is also its parse-table
//! spelling, and for every extension field whose name is outside the table.
use vstd::prelude::*;

use crate::header::{
    is_table_name, spec_header_name, spec_header_value, spec_parse_header, wf_header, HeaderView,
};
use crate::num::{lemma_uint_roundtrip, spec_parse_uint};
use crate::quoting::{lemma_quote_roundtrip, spec_maybe_quote, spec_maybe_unquote};
use crate::tokens::{
    lemma_host_roundtrip, lemma_tokens_roundtrip, spec_parse_host, spec_parse_tokens,
};

verus! {

use vstd::string::StringSliceAdditionalSpecFns;

/// The byte length of each parse-table spelling.
proof fn lemma_name_lens()
    ensures

        "Cache-Control".spec_bytes().len() == 13,
        "Connection".spec_bytes().len() == 10,
        "Date".spec_bytes().len() == 4,
        "Pragma".spec_bytes().len() == 6,
        "Trailer".spec_bytes().len() == 7,
        "Transfer-Encoding".spec_bytes().len() == 17,
        "Upgrade".spec_bytes().len() == 7,
        "Via".spec_bytes().len() == 3,
        "Warning".spec_bytes().len() == 7,
        "Accept".spec_bytes().len() == 6,
        "Accept-Charset".spec_bytes().len() == 14,
        "Accept-Encoding".spec_bytes().len() == 15,
        "Accept-Language".spec_bytes().len() == 15,
        "Authorization".spec_bytes().len() == 13,
        "Expect".spec_bytes().len() == 6,
        "From".spec_bytes().len() == 4,
        "Host".spec_bytes().len() == 4,
        "If-Match".spec_bytes().len() == 8,
        "If-Modified-Since".spec_bytes().len() == 17,
        "If-NoneMatch".spec_bytes().len() == 12,
        "If-Range".spec_bytes().len() == 8,
        "If-Unmodified-Since".spec_bytes().len() == 19,
        "Max-Forwards".spec_bytes().len() == 12,
        "Proxy-Authorization".spec_bytes().len() == 19,
        "Range".spec_bytes().len() == 5,
        "Referer".spec_bytes().len() == 7,
        "Te".spec_bytes().len() == 2,
        "User-Agent".spec_bytes().len() == 10,
        "Allow".spec_bytes().len() == 5,
        "Content-Encoding".spec_bytes().len() == 16,
        "Content-Language".spec_bytes().len() == 16,
        "Content-Length".spec_bytes().len() == 14,
        "Content-Location".spec_bytes().len() == 16,
        "Content-Md5".spec_bytes().len() == 11,
        "Content-Range".spec_bytes().len() == 13,
        "Content-Type".spec_bytes().len() == 12,
        "Expires".spec_bytes().len() == 7,
        "Last-Modified".spec_bytes().len() == 13,
{
    broadcast use vstd::string::is_ascii_spec_bytes;


    reveal_strlit("Cache-Control");
    reveal_strlit("Connection");
    reveal_strlit("Date");
    reveal_strlit("Pragma");
    reveal_strlit("Trailer");
    reveal_strlit("Transfer-Encoding");
    reveal_strlit("Upgrade");
    reveal_strlit("Via");
    reveal_strlit("Warning");
    reveal_strlit("Accept");
    reveal_strlit("Accept-Charset");
    reveal_strlit("Accept-Encoding");
    reveal_strlit("Accept-Language");
    reveal_strlit("Authorization");
    reveal_strlit("Expect");
    reveal_strlit("From");
    reveal_strlit("Host");
    reveal_strlit("If-Match");
    reveal_strlit("If-Modified-Since");
    reveal_strlit("If-NoneMatch");
    reveal_strlit("If-Range");
    reveal_strlit("If-Unmodified-Since");
    reveal_strlit("Max-Forwards");
    reveal_strlit("Proxy-Authorization");
    reveal_strlit("Range");
    reveal_strlit("Referer");
    reveal_strlit("Te");
    reveal_strlit("User-Agent");
    reveal_strlit("Allow");
    reveal_strlit("Content-Encoding");
    reveal_strlit("Content-Language");
    reveal_strlit("Content-Length");
    reveal_strlit("Content-Location");
    reveal_strlit("Content-Md5");
    reveal_strlit("Content-Range");
    reveal_strlit("Content-Type");
    reveal_strlit("Expires");
    reveal_strlit("Last-Modified");
    assert(vstd::string::is_ascii("Cache-Control"));
    assert(vstd::string::is_ascii("Connection"));
    assert(vstd::string::is_ascii("Date"));
    assert(vstd::string::is_ascii("Pragma"));
    assert(vstd::string::is_ascii("Trailer"));
    assert(vstd::string::is_ascii("Transfer-Encoding"));
    assert(vstd::string::is_ascii("Upgrade"));
    assert(vstd::string::is_ascii("Via"));
    assert(vstd::string::is_ascii("Warning"));
    assert(vstd::string::is_ascii("Accept"));
    assert(vstd::string::is_ascii("Accept-Charset"));
    assert(vstd::string::is_ascii("Accept-Encoding"));
    assert(vstd::string::is_ascii("Accept-Language"));
    assert(vstd::string::is_ascii("Authorization"));
    assert(vstd::string::is_ascii("Expect"));
    assert(vstd::string::is_ascii("From"));
    assert(vstd::string::is_ascii("Host"));
    assert(vstd::string::is_ascii("If-Match"));
    assert(vstd::string::is_ascii("If-Modified-Since"));
    assert(vstd::string::is_ascii("If-NoneMatch"));
    assert(vstd::string::is_ascii("If-Range"));
    assert(vstd::string::is_ascii("If-Unmodified-Since"));
    assert(vstd::string::is_ascii("Max-Forwards"));
    assert(vstd::string::is_ascii("Proxy-Authorization"));
    assert(vstd::string::is_ascii("Range"));
    assert(vstd::string::is_ascii("Referer"));
    assert(vstd::string::is_ascii("Te"));
    assert(vstd::string::is_ascii("User-Agent"));
    assert(vstd::string::is_ascii("Allow"));
    assert(vstd::string::is_ascii("Content-Encoding"));
    assert(vstd::string::is_ascii("Content-Language"));
    assert(vstd::string::is_ascii("Content-Length"));
    assert(vstd::string::is_ascii("Content-Location"));
    assert(vstd::string::is_ascii("Content-Md5"));
    assert(vstd::string::is_ascii("Content-Range"));
    assert(vstd::string::is_ascii("Content-Type"));
    assert(vstd::string::is_ascii("Expires"));
    assert(vstd::string::is_ascii("Last-Modified"));
}


/// Table spellings of 4 bytes differ from one another.
#[verifier::rlimit(100)]
proof fn lemma_distinct_len4()
    ensures
        "Date".spec_bytes() != "From".spec_bytes(),
        "Date".spec_bytes() != "Host".spec_bytes(),
        "From".spec_bytes() != "Host".spec_bytes(),
{
    broadcast use vstd::string::is_ascii_spec_bytes;

    reveal_strlit("Date");
    reveal_strlit("From");
    reveal_strlit("Host");
    assert(vstd::string::is_ascii("Date"));
    assert(vstd::string::is_ascii("From"));
    assert(vstd::string::is_ascii("Host"));
    assert("Date".spec_bytes()[0] != "From".spec_bytes()[0]);
    assert("Date".spec_bytes()[0] != "Host".spec_bytes()[0]);
    assert("From".spec_bytes()[0] != "Host".spec_bytes()[0]);
}

/// Table spellings of 5 bytes differ from one another.
#[verifier::rlimit(100)]
proof fn lemma_distinct_len5()
    ensures
        "Range".spec_bytes() != "Allow".spec_bytes(),
{
    broadcast use vstd::string::is_ascii_spec_bytes;

    reveal_strlit("Range");
    reveal_strlit("Allow");
    assert(vstd::string::is_ascii("Range"));
    assert(vstd::string::is_ascii("Allow"));
    assert("Range".spec_bytes()[0] != "Allow".spec_bytes()[0]);
}

/// Table spellings of 6 bytes differ from one another.
#[verifier::rlimit(100)]
proof fn lemma_distinct_len6()
    ensures
        "Pragma".spec_bytes() != "Accept".spec_bytes(),
        "Pragma".spec_bytes() != "Expect".spec_bytes(),
        "Accept".spec_bytes() != "Expect".spec_bytes(),
{
    broadcast use vstd::string::is_ascii_spec_bytes;

    reveal_strlit("Pragma");
    reveal_strlit("Accept");
    reveal_strlit("Expect");
    assert(vstd::string::is_ascii("Pragma"));
    assert(vstd::string::is_ascii("Accept"));
    assert(vstd::string::is_ascii("Expect"));
    assert("Pragma".spec_bytes()[0] != "Accept".spec_bytes()[0]);
    assert("Pragma".spec_bytes()[0] != "Expect".spec_bytes()[0]);
    assert("Accept".spec_bytes()[0] != "Expect".spec_bytes()[0]);
}

/// Table spellings of 7 bytes differ from one another.
#[verifier::rlimit(100)]
proof fn lemma_distinct_len7()
    ensures
        "Trailer".spec_bytes() != "Upgrade".spec_bytes(),
        "Trailer".spec_bytes() != "Warning".spec_bytes(),
        "Trailer".spec_bytes() != "Referer".spec_bytes(),
        "Trailer".spec_bytes() != "Expires".spec_bytes(),
        "Upgrade".spec_bytes() != "Warning".spec_bytes(),
        "Upgrade".spec_bytes() != "Referer".spec_bytes(),
        "Upgrade".spec_bytes() != "Expires".spec_bytes(),
        "Warning".spec_bytes() != "Referer".spec_bytes(),
        "Warning".spec_bytes() != "Expires".spec_bytes(),
        "Referer".spec_bytes() != "Expires".spec_bytes(),
{
    broadcast use vstd::string::is_ascii_spec_bytes;

    reveal_strlit("Trailer");
    reveal_strlit("Upgrade");
    reveal_strlit("Warning");
    reveal_strlit("Referer");
    reveal_strlit("Expires");
    assert(vstd::string::is_ascii("Trailer"));
    assert(vstd::string::is_ascii("Upgrade"));
    assert(vstd::string::is_ascii("Warning"));
    assert(vstd::string::is_ascii("Referer"));
    assert(vstd::string::is_ascii("Expires"));
    assert("Trailer".spec_bytes()[0] != "Upgrade".spec_bytes()[0]);
    assert("Trailer".spec_bytes()[0] != "Warning".spec_bytes()[0]);
    assert("Trailer".spec_bytes()[0] != "Referer".spec_bytes()[0]);
    assert("Trailer".spec_bytes()[0] != "Expires".spec_bytes()[0]);
    assert("Upgrade".spec_bytes()[0] != "Warning".spec_bytes()[0]);
    assert("Upgrade".spec_bytes()[0] != "Referer".spec_bytes()[0]);
    assert("Upgrade".spec_bytes()[0] != "Expires".spec_bytes()[0]);
    assert("Warning".spec_bytes()[0] != "Referer".spec_bytes()[0]);
    assert("Warning".spec_bytes()[0] != "Expires".spec_bytes()[0]);
    assert("Referer".spec_bytes()[0] != "Expires".spec_bytes()[0]);
}

/// Table spellings of 8 bytes differ from one another.
#[verifier::rlimit(100)]
proof fn lemma_distinct_len8()
    ensures
        "If-Match".spec_bytes() != "If-Range".spec_bytes(),
{
    broadcast use vstd::string::is_ascii_spec_bytes;

    reveal_strlit("If-Match");
    reveal_strlit("If-Range");
    assert(vstd::string::is_ascii("If-Match"));
    assert(vstd::string::is_ascii("If-Range"));
    assert("If-Match".spec_bytes()[3] != "If-Range".spec_bytes()[3]);
}

/// Table spellings of 10 bytes differ from one another.
#[verifier::rlimit(100)]
proof fn lemma_distinct_len10()
    ensures
        "Connection".spec_bytes() != "User-Agent".spec_bytes(),
{
    broadcast use vstd::string::is_ascii_spec_bytes;

    reveal_strlit("Connection");
    reveal_strlit("User-Agent");
    assert(vstd::string::is_ascii("Connection"));
    assert(vstd::string::is_ascii("User-Agent"));
    assert("Connection".spec_bytes()[0] != "User-Agent".spec_bytes()[0]);
}

/// Table spellings of 12 bytes differ from one another.
#[verifier::rlimit(100)]
proof fn lemma_distinct_len12()
    ensures
        "If-NoneMatch".spec_bytes() != "Max-Forwards".spec_bytes(),
        "If-NoneMatch".spec_bytes() != "Content-Type".spec_bytes(),
        "Max-Forwards".spec_bytes() != "Content-Type".spec_bytes(),
{
    broadcast use vstd::string::is_ascii_spec_bytes;

    reveal_strlit("If-NoneMatch");
    reveal_strlit("Max-Forwards");
    reveal_strlit("Content-Type");
    assert(vstd::string::is_ascii("If-NoneMatch"));
    assert(vstd::string::is_ascii("Max-Forwards"));
    assert(vstd::string::is_ascii("Content-Type"));
    assert("If-NoneMatch".spec_bytes()[0] != "Max-Forwards".spec_bytes()[0]);
    assert("If-NoneMatch".spec_bytes()[0] != "Content-Type".spec_bytes()[0]);
    assert("Max-Forwards".spec_bytes()[0] != "Content-Type".spec_bytes()[0]);
}

/// Table spellings of 13 bytes differ from one another.
#[verifier::rlimit(100)]
proof fn lemma_distinct_len13()
    ensures
        "Cache-Control".spec_bytes() != "Authorization".spec_bytes(),
        "Cache-Control".spec_bytes() != "Content-Range".spec_bytes(),
        "Cache-Control".spec_bytes() != "Last-Modified".spec_bytes(),
        "Authorization".spec_bytes() != "Content-Range".spec_bytes(),
        "Authorization".spec_bytes() != "Last-Modified".spec_bytes(),
        "Content-Range".spec_bytes() != "Last-Modified".spec_bytes(),
{
    broadcast use vstd::string::is_ascii_spec_bytes;

    reveal_strlit("Cache-Control");
    reveal_strlit("Authorization");
    reveal_strlit("Content-Range");
    reveal_strlit("Last-Modified");
    assert(vstd::string::is_ascii("Cache-Control"));
    assert(vstd::string::is_ascii("Authorization"));
    assert(vstd::string::is_ascii("Content-Range"));
    assert(vstd::string::is_ascii("Last-Modified"));
    assert("Cache-Control".spec_bytes()[0] != "Authorization".spec_bytes()[0]);
    assert("Cache-Control".spec_bytes()[1] != "Content-Range".spec_bytes()[1]);
    assert("Cache-Control".spec_bytes()[0] != "Last-Modified".spec_bytes()[0]);
    assert("Authorization".spec_bytes()[0] != "Content-Range".spec_bytes()[0]);
    assert("Authorization".spec_bytes()[0] != "Last-Modified".spec_bytes()[0]);
    assert("Content-Range".spec_bytes()[0] != "Last-Modified".spec_bytes()[0]);
}

/// Table spellings of 14 bytes differ from one another.
#[verifier::rlimit(100)]
proof fn lemma_distinct_len14()
    ensures
        "Accept-Charset".spec_bytes() != "Content-Length".spec_bytes(),
{
    broadcast use vstd::string::is_ascii_spec_bytes;

    reveal_strlit("Accept-Charset");
    reveal_strlit("Content-Length");
    assert(vstd::string::is_ascii("Accept-Charset"));
    assert(vstd::string::is_ascii("Content-Length"));
    assert("Accept-Charset".spec_bytes()[0] != "Content-Length".spec_bytes()[0]);
}

/// Table spellings of 15 bytes differ from one another.
#[verifier::rlimit(100)]
proof fn lemma_distinct_len15()
    ensures
        "Accept-Encoding".spec_bytes() != "Accept-Language".spec_bytes(),
{
    broadcast use vstd::string::is_ascii_spec_bytes;

    reveal_strlit("Accept-Encoding");
    reveal_strlit("Accept-Language");
    assert(vstd::string::is_ascii("Accept-Encoding"));
    assert(vstd::string::is_ascii("Accept-Language"));
    assert("Accept-Encoding".spec_bytes()[7] != "Accept-Language".spec_bytes()[7]);
}

/// Table spellings of 16 bytes differ from one another.
#[verifier::rlimit(100)]
proof fn lemma_distinct_len16()
    ensures
        "Content-Encoding".spec_bytes() != "Content-Language".spec_bytes(),
        "Content-Encoding".spec_bytes() != "Content-Location".spec_bytes(),
        "Content-Language".spec_bytes() != "Content-Location".spec_bytes(),
{
    broadcast use vstd::string::is_ascii_spec_bytes;

    reveal_strlit("Content-Encoding");
    reveal_strlit("Content-Language");
    reveal_strlit("Content-Location");
    assert(vstd::string::is_ascii("Content-Encoding"));
    assert(vstd::string::is_ascii("Content-Language"));
    assert(vstd::string::is_ascii("Content-Location"));
    assert("Content-Encoding".spec_bytes()[8] != "Content-Language".spec_bytes()[8]);
    assert("Content-Encoding".spec_bytes()[8] != "Content-Location".spec_bytes()[8]);
    assert("Content-Language".spec_bytes()[9] != "Content-Location".spec_bytes()[9]);
}

/// Table spellings of 17 bytes differ from one another.
#[verifier::rlimit(100)]
proof fn lemma_distinct_len17()
    ensures
        "Transfer-Encoding".spec_bytes() != "If-Modified-Since".spec_bytes(),
{
    broadcast use vstd::string::is_ascii_spec_bytes;

    reveal_strlit("Transfer-Encoding");
    reveal_strlit("If-Modified-Since");
    assert(vstd::string::is_ascii("Transfer-Encoding"));
    assert(vstd::string::is_ascii("If-Modified-Since"));
    assert("Transfer-Encoding".spec_bytes()[0] != "If-Modified-Since".spec_bytes()[0]);
}

/// Table spellings of 19 bytes differ from one another.
#[verifier::rlimit(100)]
proof fn lemma_distinct_len19()
    ensures
        "If-Unmodified-Since".spec_bytes() != "Proxy-Authorization".spec_bytes(),
{
    broadcast use vstd::string::is_ascii_spec_bytes;

    reveal_strlit("If-Unmodified-Since");
    reveal_strlit("Proxy-Authorization");
    assert(vstd::string::is_ascii("If-Unmodified-Since"));
    assert(vstd::string::is_ascii("Proxy-Authorization"));
    assert("If-Unmodified-Since".spec_bytes()[0] != "Proxy-Authorization".spec_bytes()[0]);
}

/// A name spelled `Cache-Control` dispatches to its own table entry.
#[verifier::rlimit(100)]
proof fn dispatch_cache_control(n: Seq<u8>, v: Seq<u8>)
    requires
        n == "Cache-Control".spec_bytes(),
    ensures
        spec_parse_header(n, v) == Some(HeaderView::CacheControl(v)),
{
    lemma_name_lens();
}

/// A name spelled `Connection` dispatches to its own table entry.
#[verifier::rlimit(100)]
proof fn dispatch_connection(n: Seq<u8>, v: Seq<u8>)
    requires
        n == "Connection".spec_bytes(),
    ensures
        spec_parse_header(n, v) == (match spec_parse_tokens(v) {
            Some(ts) => Some(HeaderView::Connection(ts)),
            None => None::<HeaderView>,
        }),
{
    lemma_name_lens();
    assert(n != "Cache-Control".spec_bytes());
}

/// A name spelled `Date` dispatches to its own table entry.
#[verifier::rlimit(100)]
proof fn dispatch_date(n: Seq<u8>, v: Seq<u8>)
    requires
        n == "Date".spec_bytes(),
    ensures
        spec_parse_header(n, v) == (match crate::date::spec_parse_date(v) {
            Some(d) => Some(HeaderView::Date(d)),
            None => None::<HeaderView>,
        }),
{
    lemma_name_lens();
    assert(n != "Cache-Control".spec_bytes());
    assert(n != "Connection".spec_bytes());
}

/// A name spelled `Pragma` dispatches to its own table entry.
#[verifier::rlimit(100)]
proof fn dispatch_pragma(n: Seq<u8>, v: Seq<u8>)
    requires
        n == "Pragma".spec_bytes(),
    ensures
        spec_parse_header(n, v) == Some(HeaderView::Pragma(v)),
{
    lemma_name_lens();
    assert(n != "Cache-Control".spec_bytes());
    assert(n != "Connection".spec_bytes());
    assert(n != "Date".spec_bytes());
}

/// A name spelled `Trailer` dispatches to its own table entry.
#[verifier::rlimit(100)]
proof fn dispatch_trailer(n: Seq<u8>, v: Seq<u8>)
    requires
        n == "Trailer".spec_bytes(),
    ensures
        spec_parse_header(n, v) == Some(HeaderView::Trailer(v)),
{
    lemma_name_lens();
    assert(n != "Cache-Control".spec_bytes());
    assert(n != "Connection".spec_bytes());
    assert(n != "Date".spec_bytes());
    assert(n != "Pragma".spec_bytes());
}

/// A name spelled `Transfer-Encoding` dispatches to its own table entry.
#[verifier::rlimit(100)]
proof fn dispatch_transfer_encoding(n: Seq<u8>, v: Seq<u8>)
    requires
        n == "Transfer-Encoding".spec_bytes(),
    ensures
        spec_parse_header(n, v) == Some(HeaderView::TransferEncoding(v)),
{
    lemma_name_lens();
    assert(n != "Cache-Control".spec_bytes());
    assert(n != "Connection".spec_bytes());
    assert(n != "Date".spec_bytes());
    assert(n != "Pragma".spec_bytes());
    assert(n != "Trailer".spec_bytes());
}

/// A name spelled `Upgrade` dispatches to its own table entry.
#[verifier::rlimit(100)]
proof fn dispatch_upgrade(n: Seq<u8>, v: Seq<u8>)
    requires
        n == "Upgrade".spec_bytes(),
    ensures
        spec_parse_header(n, v) == Some(HeaderView::Upgrade(v)),
{
    lemma_name_lens();
    lemma_distinct_len7();
    assert(n != "Cache-Control".spec_bytes());
    assert(n != "Connection".spec_bytes());
    assert(n != "Date".spec_bytes());
    assert(n != "Pragma".spec_bytes());
    assert(n != "Trailer".spec_bytes());
    assert(n != "Transfer-Encoding".spec_bytes());
}

/// A name spelled `Via` dispatches to its own table entry.
#[verifier::rlimit(100)]
proof fn dispatch_via(n: Seq<u8>, v: Seq<u8>)
    requires
        n == "Via".spec_bytes(),
    ensures
        spec_parse_header(n, v) == Some(HeaderView::Via(v)),
{
    lemma_name_lens();
    assert(n != "Cache-Control".spec_bytes());
    assert(n != "Connection".spec_bytes());
    assert(n != "Date".spec_bytes());
    assert(n != "Pragma".spec_bytes());
    assert(n != "Trailer".spec_bytes());
    assert(n != "Transfer-Encoding".spec_bytes());
    assert(n != "Upgrade".spec_bytes());
}

/// A name spelled `Warning` dispatches to its own table entry.
#[verifier::rlimit(100)]
proof fn dispatch_warning(n: Seq<u8>, v: Seq<u8>)
    requires
        n == "Warning".spec_bytes(),
    ensures
        spec_parse_header(n, v) == Some(HeaderView::Warning(v)),
{
    lemma_name_lens();
    lemma_distinct_len7();
    assert(n != "Cache-Control".spec_bytes());
    assert(n != "Connection".spec_bytes());
    assert(n != "Date".spec_bytes());
    assert(n != "Pragma".spec_bytes());
    assert(n != "Trailer".spec_bytes());
    assert(n != "Transfer-Encoding".spec_bytes());
    assert(n != "Upgrade".spec_bytes());
    assert(n != "Via".spec_bytes());
}

/// A name spelled `Accept` dispatches to its own table entry.
#[verifier::rlimit(100)]
proof fn dispatch_accept(n: Seq<u8>, v: Seq<u8>)
    requires
        n == "Accept".spec_bytes(),
    ensures
        spec_parse_header(n, v) == Some(HeaderView::Accept(v)),
{
    lemma_name_lens();
    lemma_distinct_len6();
    assert(n != "Cache-Control".spec_bytes());
    assert(n != "Connection".spec_bytes());
    assert(n != "Date".spec_bytes());
    assert(n != "Pragma".spec_bytes());
    assert(n != "Trailer".spec_bytes());
    assert(n != "Transfer-Encoding".spec_bytes());
    assert(n != "Upgrade".spec_bytes());
    assert(n != "Via".spec_bytes());
    assert(n != "Warning".spec_bytes());
}

/// A name spelled `Accept-Charset` dispatches to its own table entry.
#[verifier::rlimit(100)]
proof fn dispatch_accept_charset(n: Seq<u8>, v: Seq<u8>)
    requires
        n == "Accept-Charset".spec_bytes(),
    ensures
        spec_parse_header(n, v) == Some(HeaderView::AcceptCharset(v)),
{
    lemma_name_lens();
    assert(n != "Cache-Control".spec_bytes());
    assert(n != "Connection".spec_bytes());
    assert(n != "Date".spec_bytes());
    assert(n != "Pragma".spec_bytes());
    assert(n != "Trailer".spec_bytes());
    assert(n != "Transfer-Encoding".spec_bytes());
    assert(n != "Upgrade".spec_bytes());
    assert(n != "Via".spec_bytes());
    assert(n != "Warning".spec_bytes());
    assert(n != "Accept".spec_bytes());
}

/// A name spelled `Accept-Encoding` dispatches to its own table entry.
#[verifier::rlimit(100)]
proof fn dispatch_accept_encoding(n: Seq<u8>, v: Seq<u8>)
    requires
        n == "Accept-Encoding".spec_bytes(),
    ensures
        spec_parse_header(n, v) == Some(HeaderView::AcceptEncoding(v)),
{
    lemma_name_lens();
    assert(n != "Cache-Control".spec_bytes());
    assert(n != "Connection".spec_bytes());
    assert(n != "Date".spec_bytes());
    assert(n != "Pragma".spec_bytes());
    assert(n != "Trailer".spec_bytes());
    assert(n != "Transfer-Encoding".spec_bytes());
    assert(n != "Upgrade".spec_bytes());
    assert(n != "Via".spec_bytes());
    assert(n != "Warning".spec_bytes());
    assert(n != "Accept".spec_bytes());
    assert(n != "Accept-Charset".spec_bytes());
}

/// A name spelled `Accept-Language` dispatches to its own table entry.
#[verifier::rlimit(100)]
proof fn dispatch_accept_language(n: Seq<u8>, v: Seq<u8>)
    requires
        n == "Accept-Language".spec_bytes(),
    ensures
        spec_parse_header(n, v) == Some(HeaderView::AcceptLanguage(v)),
{
    lemma_name_lens();
    lemma_distinct_len15();
    assert(n != "Cache-Control".spec_bytes());
    assert(n != "Connection".spec_bytes());
    assert(n != "Date".spec_bytes());
    assert(n != "Pragma".spec_bytes());
    assert(n != "Trailer".spec_bytes());
    assert(n != "Transfer-Encoding".spec_bytes());
    assert(n != "Upgrade".spec_bytes());
    assert(n != "Via".spec_bytes());
    assert(n != "Warning".spec_bytes());
    assert(n != "Accept".spec_bytes());
    assert(n != "Accept-Charset".spec_bytes());
    assert(n != "Accept-Encoding".spec_bytes());
}

/// A name spelled `Authorization` dispatches to its own table entry.
#[verifier::rlimit(100)]
proof fn dispatch_authorization(n: Seq<u8>, v: Seq<u8>)
    requires
        n == "Authorization".spec_bytes(),
    ensures
        spec_parse_header(n, v) == Some(HeaderView::Authorization(v)),
{
    lemma_name_lens();
    lemma_distinct_len13();
    assert(n != "Cache-Control".spec_bytes());
    assert(n != "Connection".spec_bytes());
    assert(n != "Date".spec_bytes());
    assert(n != "Pragma".spec_bytes());
    assert(n != "Trailer".spec_bytes());
    assert(n != "Transfer-Encoding".spec_bytes());
    assert(n != "Upgrade".spec_bytes());
    assert(n != "Via".spec_bytes());
    assert(n != "Warning".spec_bytes());
    assert(n != "Accept".spec_bytes());
    assert(n != "Accept-Charset".spec_bytes());
    assert(n != "Accept-Encoding".spec_bytes());
    assert(n != "Accept-Language".spec_bytes());
}

/// A name spelled `Expect` dispatches to its own table entry.
#[verifier::rlimit(100)]
proof fn dispatch_expect(n: Seq<u8>, v: Seq<u8>)
    requires
        n == "Expect".spec_bytes(),
    ensures
        spec_parse_header(n, v) == Some(HeaderView::Expect(v)),
{
    lemma_name_lens();
    lemma_distinct_len6();
    assert(n != "Cache-Control".spec_bytes());
    assert(n != "Connection".spec_bytes());
    assert(n != "Date".spec_bytes());
    assert(n != "Pragma".spec_bytes());
    assert(n != "Trailer".spec_bytes());
    assert(n != "Transfer-Encoding".spec_bytes());
    assert(n != "Upgrade".spec_bytes());
    assert(n != "Via".spec_bytes());
    assert(n != "Warning".spec_bytes());
    assert(n != "Accept".spec_bytes());
    assert(n != "Accept-Charset".spec_bytes());
    assert(n != "Accept-Encoding".spec_bytes());
    assert(n != "Accept-Language".spec_bytes());
    assert(n != "Authorization".spec_bytes());
}

/// A name spelled `From` dispatches to its own table entry.
#[verifier::rlimit(100)]
proof fn dispatch_from(n: Seq<u8>, v: Seq<u8>)
    requires
        n == "From".spec_bytes(),
    ensures
        spec_parse_header(n, v) == Some(HeaderView::From(v)),
{
    lemma_name_lens();
    lemma_distinct_len4();
    assert(n != "Cache-Control".spec_bytes());
    assert(n != "Connection".spec_bytes());
    assert(n != "Date".spec_bytes());
    assert(n != "Pragma".spec_bytes());
    assert(n != "Trailer".spec_bytes());
    assert(n != "Transfer-Encoding".spec_bytes());
    assert(n != "Upgrade".spec_bytes());
    assert(n != "Via".spec_bytes());
    assert(n != "Warning".spec_bytes());
    assert(n != "Accept".spec_bytes());
    assert(n != "Accept-Charset".spec_bytes());
    assert(n != "Accept-Encoding".spec_bytes());
    assert(n != "Accept-Language".spec_bytes());
    assert(n != "Authorization".spec_bytes());
    assert(n != "Expect".spec_bytes());
}

/// A name spelled `Host` dispatches to its own table entry.
#[verifier::rlimit(100)]
proof fn dispatch_host(n: Seq<u8>, v: Seq<u8>)
    requires
        n == "Host".spec_bytes(),
    ensures
        spec_parse_header(n, v) == (match spec_parse_host(v) {
            Some(h) => Some(HeaderView::Host(h)),
            None => None::<HeaderView>,
        }),
{
    lemma_name_lens();
    lemma_distinct_len4();
    assert(n != "Cache-Control".spec_bytes());
    assert(n != "Connection".spec_bytes());
    assert(n != "Date".spec_bytes());
    assert(n != "Pragma".spec_bytes());
    assert(n != "Trailer".spec_bytes());
    assert(n != "Transfer-Encoding".spec_bytes());
    assert(n != "Upgrade".spec_bytes());
    assert(n != "Via".spec_bytes());
    assert(n != "Warning".spec_bytes());
    assert(n != "Accept".spec_bytes());
    assert(n != "Accept-Charset".spec_bytes());
    assert(n != "Accept-Encoding".spec_bytes());
    assert(n != "Accept-Language".spec_bytes());
    assert(n != "Authorization".spec_bytes());
    assert(n != "Expect".spec_bytes());
    assert(n != "From".spec_bytes());
}

/// A name spelled `If-Match` dispatches to its own table entry.
#[verifier::rlimit(100)]
proof fn dispatch_if_match(n: Seq<u8>, v: Seq<u8>)
    requires
        n == "If-Match".spec_bytes(),
    ensures
        spec_parse_header(n, v) == Some(HeaderView::IfMatch(v)),
{
    lemma_name_lens();
    assert(n != "Cache-Control".spec_bytes());
    assert(n != "Connection".spec_bytes());
    assert(n != "Date".spec_bytes());
    assert(n != "Pragma".spec_bytes());
    assert(n != "Trailer".spec_bytes());
    assert(n != "Transfer-Encoding".spec_bytes());
    assert(n != "Upgrade".spec_bytes());
    assert(n != "Via".spec_bytes());
    assert(n != "Warning".spec_bytes());
    assert(n != "Accept".spec_bytes());
    assert(n != "Accept-Charset".spec_bytes());
    assert(n != "Accept-Encoding".spec_bytes());
    assert(n != "Accept-Language".spec_bytes());
    assert(n != "Authorization".spec_bytes());
    assert(n != "Expect".spec_bytes());
    assert(n != "From".spec_bytes());
    assert(n != "Host".spec_bytes());
}

/// A name spelled `If-Modified-Since` dispatches to its own table entry.
#[verifier::rlimit(100)]
proof fn dispatch_if_modified_since(n: Seq<u8>, v: Seq<u8>)
    requires
        n == "If-Modified-Since".spec_bytes(),
    ensures
        spec_parse_header(n, v) == (match crate::date::spec_parse_date(v) {
            Some(d) => Some(HeaderView::IfModifiedSince(d)),
            None => None::<HeaderView>,
        }),
{
    lemma_name_lens();
    lemma_distinct_len17();
    assert(n != "Cache-Control".spec_bytes());
    assert(n != "Connection".spec_bytes());
    assert(n != "Date".spec_bytes());
    assert(n != "Pragma".spec_bytes());
    assert(n != "Trailer".spec_bytes());
    assert(n != "Transfer-Encoding".spec_bytes());
    assert(n != "Upgrade".spec_bytes());
    assert(n != "Via".spec_bytes());
    assert(n != "Warning".spec_bytes());
    assert(n != "Accept".spec_bytes());
    assert(n != "Accept-Charset".spec_bytes());
    assert(n != "Accept-Encoding".spec_bytes());
    assert(n != "Accept-Language".spec_bytes());
    assert(n != "Authorization".spec_bytes());
    assert(n != "Expect".spec_bytes());
    assert(n != "From".spec_bytes());
    assert(n != "Host".spec_bytes());
    assert(n != "If-Match".spec_bytes());
}

/// A name spelled `If-Range` dispatches to its own table entry.
#[verifier::rlimit(100)]
proof fn dispatch_if_range(n: Seq<u8>, v: Seq<u8>)
    requires
        n == "If-Range".spec_bytes(),
    ensures
        spec_parse_header(n, v) == Some(HeaderView::IfRange(v)),
{
    lemma_name_lens();
    lemma_distinct_len8();
    assert(n != "Cache-Control".spec_bytes());
    assert(n != "Connection".spec_bytes());
    assert(n != "Date".spec_bytes());
    assert(n != "Pragma".spec_bytes());
    assert(n != "Trailer".spec_bytes());
    assert(n != "Transfer-Encoding".spec_bytes());
    assert(n != "Upgrade".spec_bytes());
    assert(n != "Via".spec_bytes());
    assert(n != "Warning".spec_bytes());
    assert(n != "Accept".spec_bytes());
    assert(n != "Accept-Charset".spec_bytes());
    assert(n != "Accept-Encoding".spec_bytes());
    assert(n != "Accept-Language".spec_bytes());
    assert(n != "Authorization".spec_bytes());
    assert(n != "Expect".spec_bytes());
    assert(n != "From".spec_bytes());
    assert(n != "Host".spec_bytes());
    assert(n != "If-Match".spec_bytes());
    assert(n != "If-Modified-Since".spec_bytes());
    assert(n != "If-NoneMatch".spec_bytes());
}

/// A name spelled `If-Unmodified-Since` dispatches to its own table entry.
#[verifier::rlimit(100)]
proof fn dispatch_if_unmodified_since(n: Seq<u8>, v: Seq<u8>)
    requires
        n == "If-Unmodified-Since".spec_bytes(),
    ensures
        spec_parse_header(n, v) == (match crate::date::spec_parse_date(v) {
            Some(d) => Some(HeaderView::IfUnmodifiedSince(d)),
            None => None::<HeaderView>,
        }),
{
    lemma_name_lens();
    assert(n != "Cache-Control".spec_bytes());
    assert(n != "Connection".spec_bytes());
    assert(n != "Date".spec_bytes());
    assert(n != "Pragma".spec_bytes());
    assert(n != "Trailer".spec_bytes());
    assert(n != "Transfer-Encoding".spec_bytes());
    assert(n != "Upgrade".spec_bytes());
    assert(n != "Via".spec_bytes());
    assert(n != "Warning".spec_bytes());
    assert(n != "Accept".spec_bytes());
    assert(n != "Accept-Charset".spec_bytes());
    assert(n != "Accept-Encoding".spec_bytes());
    assert(n != "Accept-Language".spec_bytes());
    assert(n != "Authorization".spec_bytes());
    assert(n != "Expect".spec_bytes());
    assert(n != "From".spec_bytes());
    assert(n != "Host".spec_bytes());
    assert(n != "If-Match".spec_bytes());
    assert(n != "If-Modified-Since".spec_bytes());
    assert(n != "If-NoneMatch".spec_bytes());
    assert(n != "If-Range".spec_bytes());
}

/// A name spelled `Max-Forwards` dispatches to its own table entry.
#[verifier::rlimit(100)]
proof fn dispatch_max_forwards(n: Seq<u8>, v: Seq<u8>)
    requires
        n == "Max-Forwards".spec_bytes(),
    ensures
        spec_parse_header(n, v) == (match spec_parse_uint(v, usize::MAX as nat) {
            Some(x) => Some(HeaderView::MaxForwards(x as usize)),
            None => None::<HeaderView>,
        }),
{
    lemma_name_lens();
    lemma_distinct_len12();
    assert(n != "Cache-Control".spec_bytes());
    assert(n != "Connection".spec_bytes());
    assert(n != "Date".spec_bytes());
    assert(n != "Pragma".spec_bytes());
    assert(n != "Trailer".spec_bytes());
    assert(n != "Transfer-Encoding".spec_bytes());
    assert(n != "Upgrade".spec_bytes());
    assert(n != "Via".spec_bytes());
    assert(n != "Warning".spec_bytes());
    assert(n != "Accept".spec_bytes());
    assert(n != "Accept-Charset".spec_bytes());
    assert(n != "Accept-Encoding".spec_bytes());
    assert(n != "Accept-Language".spec_bytes());
    assert(n != "Authorization".spec_bytes());
    assert(n != "Expect".spec_bytes());
    assert(n != "From".spec_bytes());
    assert(n != "Host".spec_bytes());
    assert(n != "If-Match".spec_bytes());
    assert(n != "If-Modified-Since".spec_bytes());
    assert(n != "If-NoneMatch".spec_bytes());
    assert(n != "If-Range".spec_bytes());
    assert(n != "If-Unmodified-Since".spec_bytes());
}

/// A name spelled `Proxy-Authorization` dispatches to its own table entry.
#[verifier::rlimit(100)]
proof fn dispatch_proxy_authorization(n: Seq<u8>, v: Seq<u8>)
    requires
        n == "Proxy-Authorization".spec_bytes(),
    ensures
        spec_parse_header(n, v) == Some(HeaderView::ProxyAuthorization(v)),
{
    lemma_name_lens();
    lemma_distinct_len19();
    assert(n != "Cache-Control".spec_bytes());
    assert(n != "Connection".spec_bytes());
    assert(n != "Date".spec_bytes());
    assert(n != "Pragma".spec_bytes());
    assert(n != "Trailer".spec_bytes());
    assert(n != "Transfer-Encoding".spec_bytes());
    assert(n != "Upgrade".spec_bytes());
    assert(n != "Via".spec_bytes());
    assert(n != "Warning".spec_bytes());
    assert(n != "Accept".spec_bytes());
    assert(n != "Accept-Charset".spec_bytes());
    assert(n != "Accept-Encoding".spec_bytes());
    assert(n != "Accept-Language".spec_bytes());
    assert(n != "Authorization".spec_bytes());
    assert(n != "Expect".spec_bytes());
    assert(n != "From".spec_bytes());
    assert(n != "Host".spec_bytes());
    assert(n != "If-Match".spec_bytes());
    assert(n != "If-Modified-Since".spec_bytes());
    assert(n != "If-NoneMatch".spec_bytes());
    assert(n != "If-Range".spec_bytes());
    assert(n != "If-Unmodified-Since".spec_bytes());
    assert(n != "Max-Forwards".spec_bytes());
}

/// A name spelled `Range` dispatches to its own table entry.
#[verifier::rlimit(100)]
proof fn dispatch_range(n: Seq<u8>, v: Seq<u8>)
    requires
        n == "Range".spec_bytes(),
    ensures
        spec_parse_header(n, v) == Some(HeaderView::Range(v)),
{
    lemma_name_lens();
    assert(n != "Cache-Control".spec_bytes());
    assert(n != "Connection".spec_bytes());
    assert(n != "Date".spec_bytes());
    assert(n != "Pragma".spec_bytes());
    assert(n != "Trailer".spec_bytes());
    assert(n != "Transfer-Encoding".spec_bytes());
    assert(n != "Upgrade".spec_bytes());
    assert(n != "Via".spec_bytes());
    assert(n != "Warning".spec_bytes());
    assert(n != "Accept".spec_bytes());
    assert(n != "Accept-Charset".spec_bytes());
    assert(n != "Accept-Encoding".spec_bytes());
    assert(n != "Accept-Language".spec_bytes());
    assert(n != "Authorization".spec_bytes());
    assert(n != "Expect".spec_bytes());
    assert(n != "From".spec_bytes());
    assert(n != "Host".spec_bytes());
    assert(n != "If-Match".spec_bytes());
    assert(n != "If-Modified-Since".spec_bytes());
    assert(n != "If-NoneMatch".spec_bytes());
    assert(n != "If-Range".spec_bytes());
    assert(n != "If-Unmodified-Since".spec_bytes());
    assert(n != "Max-Forwards".spec_bytes());
    assert(n != "Proxy-Authorization".spec_bytes());
}

/// A name spelled `Referer` dispatches to its own table entry.
#[verifier::rlimit(100)]
proof fn dispatch_referer(n: Seq<u8>, v: Seq<u8>)
    requires
        n == "Referer".spec_bytes(),
    ensures
        spec_parse_header(n, v) == Some(HeaderView::Referer(v)),
{
    lemma_name_lens();
    lemma_distinct_len7();
    assert(n != "Cache-Control".spec_bytes());
    assert(n != "Connection".spec_bytes());
    assert(n != "Date".spec_bytes());
    assert(n != "Pragma".spec_bytes());
    assert(n != "Trailer".spec_bytes());
    assert(n != "Transfer-Encoding".spec_bytes());
    assert(n != "Upgrade".spec_bytes());
    assert(n != "Via".spec_bytes());
    assert(n != "Warning".spec_bytes());
    assert(n != "Accept".spec_bytes());
    assert(n != "Accept-Charset".spec_bytes());
    assert(n != "Accept-Encoding".spec_bytes());
    assert(n != "Accept-Language".spec_bytes());
    assert(n != "Authorization".spec_bytes());
    assert(n != "Expect".spec_bytes());
    assert(n != "From".spec_bytes());
    assert(n != "Host".spec_bytes());
    assert(n != "If-Match".spec_bytes());
    assert(n != "If-Modified-Since".spec_bytes());
    assert(n != "If-NoneMatch".spec_bytes());
    assert(n != "If-Range".spec_bytes());
    assert(n != "If-Unmodified-Since".spec_bytes());
    assert(n != "Max-Forwards".spec_bytes());
    assert(n != "Proxy-Authorization".spec_bytes());
    assert(n != "Range".spec_bytes());
}

/// A name spelled `User-Agent` dispatches to its own table entry.
#[verifier::rlimit(100)]
proof fn dispatch_user_agent(n: Seq<u8>, v: Seq<u8>)
    requires
        n == "User-Agent".spec_bytes(),
    ensures
        spec_parse_header(n, v) == Some(HeaderView::UserAgent(v)),
{
    lemma_name_lens();
    lemma_distinct_len10();
    assert(n != "Cache-Control".spec_bytes());
    assert(n != "Connection".spec_bytes());
    assert(n != "Date".spec_bytes());
    assert(n != "Pragma".spec_bytes());
    assert(n != "Trailer".spec_bytes());
    assert(n != "Transfer-Encoding".spec_bytes());
    assert(n != "Upgrade".spec_bytes());
    assert(n != "Via".spec_bytes());
    assert(n != "Warning".spec_bytes());
    assert(n != "Accept".spec_bytes());
    assert(n != "Accept-Charset".spec_bytes());
    assert(n != "Accept-Encoding".spec_bytes());
    assert(n != "Accept-Language".spec_bytes());
    assert(n != "Authorization".spec_bytes());
    assert(n != "Expect".spec_bytes());
    assert(n != "From".spec_bytes());
    assert(n != "Host".spec_bytes());
    assert(n != "If-Match".spec_bytes());
    assert(n != "If-Modified-Since".spec_bytes());
    assert(n != "If-NoneMatch".spec_bytes());
    assert(n != "If-Range".spec_bytes());
    assert(n != "If-Unmodified-Since".spec_bytes());
    assert(n != "Max-Forwards".spec_bytes());
    assert(n != "Proxy-Authorization".spec_bytes());
    assert(n != "Range".spec_bytes());
    assert(n != "Referer".spec_bytes());
    assert(n != "Te".spec_bytes());
}

/// A name spelled `Allow` dispatches to its own table entry.
#[verifier::rlimit(100)]
proof fn dispatch_allow(n: Seq<u8>, v: Seq<u8>)
    requires
        n == "Allow".spec_bytes(),
    ensures
        spec_parse_header(n, v) == (match spec_parse_tokens(v) {
            Some(ts) => Some(HeaderView::Allow(ts)),
            None => None::<HeaderView>,
        }),
{
    lemma_name_lens();
    lemma_distinct_len5();
    assert(n != "Cache-Control".spec_bytes());
    assert(n != "Connection".spec_bytes());
    assert(n != "Date".spec_bytes());
    assert(n != "Pragma".spec_bytes());
    assert(n != "Trailer".spec_bytes());
    assert(n != "Transfer-Encoding".spec_bytes());
    assert(n != "Upgrade".spec_bytes());
    assert(n != "Via".spec_bytes());
    assert(n != "Warning".spec_bytes());
    assert(n != "Accept".spec_bytes());
    assert(n != "Accept-Charset".spec_bytes());
    assert(n != "Accept-Encoding".spec_bytes());
    assert(n != "Accept-Language".spec_bytes());
    assert(n != "Authorization".spec_bytes());
    assert(n != "Expect".spec_bytes());
    assert(n != "From".spec_bytes());
    assert(n != "Host".spec_bytes());
    assert(n != "If-Match".spec_bytes());
    assert(n != "If-Modified-Since".spec_bytes());
    assert(n != "If-NoneMatch".spec_bytes());
    assert(n != "If-Range".spec_bytes());
    assert(n != "If-Unmodified-Since".spec_bytes());
    assert(n != "Max-Forwards".spec_bytes());
    assert(n != "Proxy-Authorization".spec_bytes());
    assert(n != "Range".spec_bytes());
    assert(n != "Referer".spec_bytes());
    assert(n != "Te".spec_bytes());
    assert(n != "User-Agent".spec_bytes());
}

/// A name spelled `Content-Encoding` dispatches to its own table entry.
#[verifier::rlimit(100)]
proof fn dispatch_content_encoding(n: Seq<u8>, v: Seq<u8>)
    requires
        n == "Content-Encoding".spec_bytes(),
    ensures
        spec_parse_header(n, v) == Some(HeaderView::ContentEncoding(v)),
{
    lemma_name_lens();
    assert(n != "Cache-Control".spec_bytes());
    assert(n != "Connection".spec_bytes());
    assert(n != "Date".spec_bytes());
    assert(n != "Pragma".spec_bytes());
    assert(n != "Trailer".spec_bytes());
    assert(n != "Transfer-Encoding".spec_bytes());
    assert(n != "Upgrade".spec_bytes());
    assert(n != "Via".spec_bytes());
    assert(n != "Warning".spec_bytes());
    assert(n != "Accept".spec_bytes());
    assert(n != "Accept-Charset".spec_bytes());
    assert(n != "Accept-Encoding".spec_bytes());
    assert(n != "Accept-Language".spec_bytes());
    assert(n != "Authorization".spec_bytes());
    assert(n != "Expect".spec_bytes());
    assert(n != "From".spec_bytes());
    assert(n != "Host".spec_bytes());
    assert(n != "If-Match".spec_bytes());
    assert(n != "If-Modified-Since".spec_bytes());
    assert(n != "If-NoneMatch".spec_bytes());
    assert(n != "If-Range".spec_bytes());
    assert(n != "If-Unmodified-Since".spec_bytes());
    assert(n != "Max-Forwards".spec_bytes());
    assert(n != "Proxy-Authorization".spec_bytes());
    assert(n != "Range".spec_bytes());
    assert(n != "Referer".spec_bytes());
    assert(n != "Te".spec_bytes());
    assert(n != "User-Agent".spec_bytes());
    assert(n != "Allow".spec_bytes());
}

/// A name spelled `Content-Language` dispatches to its own table entry.
#[verifier::rlimit(100)]
proof fn dispatch_content_language(n: Seq<u8>, v: Seq<u8>)
    requires
        n == "Content-Language".spec_bytes(),
    ensures
        spec_parse_header(n, v) == Some(HeaderView::ContentLanguage(v)),
{
    lemma_name_lens();
    lemma_distinct_len16();
    assert(n != "Cache-Control".spec_bytes());
    assert(n != "Connection".spec_bytes());
    assert(n != "Date".spec_bytes());
    assert(n != "Pragma".spec_bytes());
    assert(n != "Trailer".spec_bytes());
    assert(n != "Transfer-Encoding".spec_bytes());
    assert(n != "Upgrade".spec_bytes());
    assert(n != "Via".spec_bytes());
    assert(n != "Warning".spec_bytes());
    assert(n != "Accept".spec_bytes());
    assert(n != "Accept-Charset".spec_bytes());
    assert(n != "Accept-Encoding".spec_bytes());
    assert(n != "Accept-Language".spec_bytes());
    assert(n != "Authorization".spec_bytes());
    assert(n != "Expect".spec_bytes());
    assert(n != "From".spec_bytes());
    assert(n != "Host".spec_bytes());
    assert(n != "If-Match".spec_bytes());
    assert(n != "If-Modified-Since".spec_bytes());
    assert(n != "If-NoneMatch".spec_bytes());
    assert(n != "If-Range".spec_bytes());
    assert(n != "If-Unmodified-Since".spec_bytes());
    assert(n != "Max-Forwards".spec_bytes());
    assert(n != "Proxy-Authorization".spec_bytes());
    assert(n != "Range".spec_bytes());
    assert(n != "Referer".spec_bytes());
    assert(n != "Te".spec_bytes());
    assert(n != "User-Agent".spec_bytes());
    assert(n != "Allow".spec_bytes());
    assert(n != "Content-Encoding".spec_bytes());
}

/// A name spelled `Content-Length` dispatches to its own table entry.
#[verifier::rlimit(100)]
proof fn dispatch_content_length(n: Seq<u8>, v: Seq<u8>)
    requires
        n == "Content-Length".spec_bytes(),
    ensures
        spec_parse_header(n, v) == (match spec_parse_uint(v, usize::MAX as nat) {
            Some(x) => Some(HeaderView::ContentLength(x as usize)),
            None => None::<HeaderView>,
        }),
{
    lemma_name_lens();
    lemma_distinct_len14();
    assert(n != "Cache-Control".spec_bytes());
    assert(n != "Connection".spec_bytes());
    assert(n != "Date".spec_bytes());
    assert(n != "Pragma".spec_bytes());
    assert(n != "Trailer".spec_bytes());
    assert(n != "Transfer-Encoding".spec_bytes());
    assert(n != "Upgrade".spec_bytes());
    assert(n != "Via".spec_bytes());
    assert(n != "Warning".spec_bytes());
    assert(n != "Accept".spec_bytes());
    assert(n != "Accept-Charset".spec_bytes());
    assert(n != "Accept-Encoding".spec_bytes());
    assert(n != "Accept-Language".spec_bytes());
    assert(n != "Authorization".spec_bytes());
    assert(n != "Expect".spec_bytes());
    assert(n != "From".spec_bytes());
    assert(n != "Host".spec_bytes());
    assert(n != "If-Match".spec_bytes());
    assert(n != "If-Modified-Since".spec_bytes());
    assert(n != "If-NoneMatch".spec_bytes());
    assert(n != "If-Range".spec_bytes());
    assert(n != "If-Unmodified-Since".spec_bytes());
    assert(n != "Max-Forwards".spec_bytes());
    assert(n != "Proxy-Authorization".spec_bytes());
    assert(n != "Range".spec_bytes());
    assert(n != "Referer".spec_bytes());
    assert(n != "Te".spec_bytes());
    assert(n != "User-Agent".spec_bytes());
    assert(n != "Allow".spec_bytes());
    assert(n != "Content-Encoding".spec_bytes());
    assert(n != "Content-Language".spec_bytes());
}

/// A name spelled `Content-Location` dispatches to its own table entry.
#[verifier::rlimit(100)]
proof fn dispatch_content_location(n: Seq<u8>, v: Seq<u8>)
    requires
        n == "Content-Location".spec_bytes(),
    ensures
        spec_parse_header(n, v) == Some(HeaderView::ContentLocation(v)),
{
    lemma_name_lens();
    lemma_distinct_len16();
    assert(n != "Cache-Control".spec_bytes());
    assert(n != "Connection".spec_bytes());
    assert(n != "Date".spec_bytes());
    assert(n != "Pragma".spec_bytes());
    assert(n != "Trailer".spec_bytes());
    assert(n != "Transfer-Encoding".spec_bytes());
    assert(n != "Upgrade".spec_bytes());
    assert(n != "Via".spec_bytes());
    assert(n != "Warning".spec_bytes());
    assert(n != "Accept".spec_bytes());
    assert(n != "Accept-Charset".spec_bytes());
    assert(n != "Accept-Encoding".spec_bytes());
    assert(n != "Accept-Language".spec_bytes());
    assert(n != "Authorization".spec_bytes());
    assert(n != "Expect".spec_bytes());
    assert(n != "From".spec_bytes());
    assert(n != "Host".spec_bytes());
    assert(n != "If-Match".spec_bytes());
    assert(n != "If-Modified-Since".spec_bytes());
    assert(n != "If-NoneMatch".spec_bytes());
    assert(n != "If-Range".spec_bytes());
    assert(n != "If-Unmodified-Since".spec_bytes());
    assert(n != "Max-Forwards".spec_bytes());
    assert(n != "Proxy-Authorization".spec_bytes());
    assert(n != "Range".spec_bytes());
    assert(n != "Referer".spec_bytes());
    assert(n != "Te".spec_bytes());
    assert(n != "User-Agent".spec_bytes());
    assert(n != "Allow".spec_bytes());
    assert(n != "Content-Encoding".spec_bytes());
    assert(n != "Content-Language".spec_bytes());
    assert(n != "Content-Length".spec_bytes());
}

/// A name spelled `Content-Range` dispatches to its own table entry.
#[verifier::rlimit(100)]
proof fn dispatch_content_range(n: Seq<u8>, v: Seq<u8>)
    requires
        n == "Content-Range".spec_bytes(),
    ensures
        spec_parse_header(n, v) == Some(HeaderView::ContentRange(v)),
{
    lemma_name_lens();
    lemma_distinct_len13();
    assert(n != "Cache-Control".spec_bytes());
    assert(n != "Connection".spec_bytes());
    assert(n != "Date".spec_bytes());
    assert(n != "Pragma".spec_bytes());
    assert(n != "Trailer".spec_bytes());
    assert(n != "Transfer-Encoding".spec_bytes());
    assert(n != "Upgrade".spec_bytes());
    assert(n != "Via".spec_bytes());
    assert(n != "Warning".spec_bytes());
    assert(n != "Accept".spec_bytes());
    assert(n != "Accept-Charset".spec_bytes());
    assert(n != "Accept-Encoding".spec_bytes());
    assert(n != "Accept-Language".spec_bytes());
    assert(n != "Authorization".spec_bytes());
    assert(n != "Expect".spec_bytes());
    assert(n != "From".spec_bytes());
    assert(n != "Host".spec_bytes());
    assert(n != "If-Match".spec_bytes());
    assert(n != "If-Modified-Since".spec_bytes());
    assert(n != "If-NoneMatch".spec_bytes());
    assert(n != "If-Range".spec_bytes());
    assert(n != "If-Unmodified-Since".spec_bytes());
    assert(n != "Max-Forwards".spec_bytes());
    assert(n != "Proxy-Authorization".spec_bytes());
    assert(n != "Range".spec_bytes());
    assert(n != "Referer".spec_bytes());
    assert(n != "Te".spec_bytes());
    assert(n != "User-Agent".spec_bytes());
    assert(n != "Allow".spec_bytes());
    assert(n != "Content-Encoding".spec_bytes());
    assert(n != "Content-Language".spec_bytes());
    assert(n != "Content-Length".spec_bytes());
    assert(n != "Content-Location".spec_bytes());
    assert(n != "Content-Md5".spec_bytes());
}

/// A name spelled `Content-Type` dispatches to its own table entry.
#[verifier::rlimit(100)]
proof fn dispatch_content_type(n: Seq<u8>, v: Seq<u8>)
    requires
        n == "Content-Type".spec_bytes(),
    ensures
        spec_parse_header(n, v) == Some(HeaderView::ContentType(v)),
{
    lemma_name_lens();
    lemma_distinct_len12();
    assert(n != "Cache-Control".spec_bytes());
    assert(n != "Connection".spec_bytes());
    assert(n != "Date".spec_bytes());
    assert(n != "Pragma".spec_bytes());
    assert(n != "Trailer".spec_bytes());
    assert(n != "Transfer-Encoding".spec_bytes());
    assert(n != "Upgrade".spec_bytes());
    assert(n != "Via".spec_bytes());
    assert(n != "Warning".spec_bytes());
    assert(n != "Accept".spec_bytes());
    assert(n != "Accept-Charset".spec_bytes());
    assert(n != "Accept-Encoding".spec_bytes());
    assert(n != "Accept-Language".spec_bytes());
    assert(n != "Authorization".spec_bytes());
    assert(n != "Expect".spec_bytes());
    assert(n != "From".spec_bytes());
    assert(n != "Host".spec_bytes());
    assert(n != "If-Match".spec_bytes());
    assert(n != "If-Modified-Since".spec_bytes());
    assert(n != "If-NoneMatch".spec_bytes());
    assert(n != "If-Range".spec_bytes());
    assert(n != "If-Unmodified-Since".spec_bytes());
    assert(n != "Max-Forwards".spec_bytes());
    assert(n != "Proxy-Authorization".spec_bytes());
    assert(n != "Range".spec_bytes());
    assert(n != "Referer".spec_bytes());
    assert(n != "Te".spec_bytes());
    assert(n != "User-Agent".spec_bytes());
    assert(n != "Allow".spec_bytes());
    assert(n != "Content-Encoding".spec_bytes());
    assert(n != "Content-Language".spec_bytes());
    assert(n != "Content-Length".spec_bytes());
    assert(n != "Content-Location".spec_bytes());
    assert(n != "Content-Md5".spec_bytes());
    assert(n != "Content-Range".spec_bytes());
}

/// A name spelled `Expires` dispatches to its own table entry.
#[verifier::rlimit(100)]
proof fn dispatch_expires(n: Seq<u8>, v: Seq<u8>)
    requires
        n == "Expires".spec_bytes(),
    ensures
        spec_parse_header(n, v) == (match crate::date::spec_parse_date(v) {
            Some(d) => Some(HeaderView::Expires(d)),
            None => None::<HeaderView>,
        }),
{
    lemma_name_lens();
    lemma_distinct_len7();
    assert(n != "Cache-Control".spec_bytes());
    assert(n != "Connection".spec_bytes());
    assert(n != "Date".spec_bytes());
    assert(n != "Pragma".spec_bytes());
    assert(n != "Trailer".spec_bytes());
    assert(n != "Transfer-Encoding".spec_bytes());
    assert(n != "Upgrade".spec_bytes());
    assert(n != "Via".spec_bytes());
    assert(n != "Warning".spec_bytes());
    assert(n != "Accept".spec_bytes());
    assert(n != "Accept-Charset".spec_bytes());
    assert(n != "Accept-Encoding".spec_bytes());
    assert(n != "Accept-Language".spec_bytes());
    assert(n != "Authorization".spec_bytes());
    assert(n != "Expect".spec_bytes());
    assert(n != "From".spec_bytes());
    assert(n != "Host".spec_bytes());
    assert(n != "If-Match".spec_bytes());
    assert(n != "If-Modified-Since".spec_bytes());
    assert(n != "If-NoneMatch".spec_bytes());
    assert(n != "If-Range".spec_bytes());
    assert(n != "If-Unmodified-Since".spec_bytes());
    assert(n != "Max-Forwards".spec_bytes());
    assert(n != "Proxy-Authorization".spec_bytes());
    assert(n != "Range".spec_bytes());
    assert(n != "Referer".spec_bytes());
    assert(n != "Te".spec_bytes());
    assert(n != "User-Agent".spec_bytes());
    assert(n != "Allow".spec_bytes());
    assert(n != "Content-Encoding".spec_bytes());
    assert(n != "Content-Language".spec_bytes());
    assert(n != "Content-Length".spec_bytes());
    assert(n != "Content-Location".spec_bytes());
    assert(n != "Content-Md5".spec_bytes());
    assert(n != "Content-Range".spec_bytes());
    assert(n != "Content-Type".spec_bytes());
}

/// A name spelled `Last-Modified` dispatches to its own table entry.
#[verifier::rlimit(100)]
proof fn dispatch_last_modified(n: Seq<u8>, v: Seq<u8>)
    requires
        n == "Last-Modified".spec_bytes(),
    ensures
        spec_parse_header(n, v) == (match crate::date::spec_parse_date(v) {
            Some(d) => Some(HeaderView::LastModified(d)),
            None => None::<HeaderView>,
        }),
{
    lemma_name_lens();
    lemma_distinct_len13();
    assert(n != "Cache-Control".spec_bytes());
    assert(n != "Connection".spec_bytes());
    assert(n != "Date".spec_bytes());
    assert(n != "Pragma".spec_bytes());
    assert(n != "Trailer".spec_bytes());
    assert(n != "Transfer-Encoding".spec_bytes());
    assert(n != "Upgrade".spec_bytes());
    assert(n != "Via".spec_bytes());
    assert(n != "Warning".spec_bytes());
    assert(n != "Accept".spec_bytes());
    assert(n != "Accept-Charset".spec_bytes());
    assert(n != "Accept-Encoding".spec_bytes());
    assert(n != "Accept-Language".spec_bytes());
    assert(n != "Authorization".spec_bytes());
    assert(n != "Expect".spec_bytes());
    assert(n != "From".spec_bytes());
    assert(n != "Host".spec_bytes());
    assert(n != "If-Match".spec_bytes());
    assert(n != "If-Modified-Since".spec_bytes());
    assert(n != "If-NoneMatch".spec_bytes());
    assert(n != "If-Range".spec_bytes());
    assert(n != "If-Unmodified-Since".spec_bytes());
    assert(n != "Max-Forwards".spec_bytes());
    assert(n != "Proxy-Authorization".spec_bytes());
    assert(n != "Range".spec_bytes());
    assert(n != "Referer".spec_bytes());
    assert(n != "Te".spec_bytes());
    assert(n != "User-Agent".spec_bytes());
    assert(n != "Allow".spec_bytes());
    assert(n != "Content-Encoding".spec_bytes());
    assert(n != "Content-Language".spec_bytes());
    assert(n != "Content-Length".spec_bytes());
    assert(n != "Content-Location".spec_bytes());
    assert(n != "Content-Md5".spec_bytes());
    assert(n != "Content-Range".spec_bytes());
    assert(n != "Content-Type".spec_bytes());
    assert(n != "Expires".spec_bytes());
}

/// A name outside the table always becomes an extension header.
proof fn dispatch_extension(n: Seq<u8>, v: Seq<u8>)
    requires
        !is_table_name(n),
    ensures
        spec_parse_header(n, v) == Some(HeaderView::ExtensionHeader(n, spec_maybe_unquote(v))),
{
}

/// Law: parsing a serialized variant under its serialized name returns the
/// variant unchanged. This holds for every well-formed variant whose
/// canonical spelling is also its parse-table spelling -- `TE`,
/// `If-None-Match` and `Content-MD5` are written canonically but matched
/// under the table spellings `Te`, `If-NoneMatch` and `Content-Md5`, so
/// those three round-trip to extension fields instead -- and for every
/// extension header whose name is outside the table.
pub proof fn lemma_header_roundtrip(h: HeaderView)
    requires
        wf_header(h),
        !(h matches HeaderView::Te(_)),
        !(h matches HeaderView::IfNoneMatch(_)),
        !(h matches HeaderView::ContentMd5(_)),
        (h matches HeaderView::ExtensionHeader(n, _) ==> !is_table_name(n)),
    ensures
        spec_parse_header(spec_header_name(h), spec_header_value(h)) == Some(h),
{
    match h {

        HeaderView::CacheControl(x) => dispatch_cache_control(spec_header_name(h), x),
        HeaderView::Connection(ts) => {
            dispatch_connection(spec_header_name(h), spec_header_value(h));
            lemma_tokens_roundtrip(ts);
        },
        HeaderView::Date(d) => {
            dispatch_date(spec_header_name(h), spec_header_value(h));
            crate::date::lemma_date_roundtrip(d);
        },
        HeaderView::Pragma(x) => dispatch_pragma(spec_header_name(h), x),
        HeaderView::Trailer(x) => dispatch_trailer(spec_header_name(h), x),
        HeaderView::TransferEncoding(x) => dispatch_transfer_encoding(spec_header_name(h), x),
        HeaderView::Upgrade(x) => dispatch_upgrade(spec_header_name(h), x),
        HeaderView::Via(x) => dispatch_via(spec_header_name(h), x),
        HeaderView::Warning(x) => dispatch_warning(spec_header_name(h), x),
        HeaderView::Accept(x) => dispatch_accept(spec_header_name(h), x),
        HeaderView::AcceptCharset(x) => dispatch_accept_charset(spec_header_name(h), x),
        HeaderView::AcceptEncoding(x) => dispatch_accept_encoding(spec_header_name(h), x),
        HeaderView::AcceptLanguage(x) => dispatch_accept_language(spec_header_name(h), x),
        HeaderView::Authorization(x) => dispatch_authorization(spec_header_name(h), x),
        HeaderView::Expect(x) => dispatch_expect(spec_header_name(h), x),
        HeaderView::From(x) => dispatch_from(spec_header_name(h), x),
        HeaderView::Host(hv) => {
            dispatch_host(spec_header_name(h), spec_header_value(h));
            lemma_host_roundtrip(hv);
        },
        HeaderView::IfMatch(x) => dispatch_if_match(spec_header_name(h), x),
        HeaderView::IfModifiedSince(d) => {
            dispatch_if_modified_since(spec_header_name(h), spec_header_value(h));
            crate::date::lemma_date_roundtrip(d);
        },
        HeaderView::IfNoneMatch(x) => {},
        HeaderView::IfRange(x) => dispatch_if_range(spec_header_name(h), x),
        HeaderView::IfUnmodifiedSince(d) => {
            dispatch_if_unmodified_since(spec_header_name(h), spec_header_value(h));
            crate::date::lemma_date_roundtrip(d);
        },
        HeaderView::MaxForwards(x) => {
            dispatch_max_forwards(spec_header_name(h), spec_header_value(h));
            lemma_uint_roundtrip(x as nat, usize::MAX as nat);
        },
        HeaderView::ProxyAuthorization(x) => dispatch_proxy_authorization(spec_header_name(h), x),
        HeaderView::Range(x) => dispatch_range(spec_header_name(h), x),
        HeaderView::Referer(x) => dispatch_referer(spec_header_name(h), x),
        HeaderView::Te(x) => {},
        HeaderView::UserAgent(x) => dispatch_user_agent(spec_header_name(h), x),
        HeaderView::Allow(ts) => {
            dispatch_allow(spec_header_name(h), spec_header_value(h));
            lemma_tokens_roundtrip(ts);
        },
        HeaderView::ContentEncoding(x) => dispatch_content_encoding(spec_header_name(h), x),
        HeaderView::ContentLanguage(x) => dispatch_content_language(spec_header_name(h), x),
        HeaderView::ContentLength(x) => {
            dispatch_content_length(spec_header_name(h), spec_header_value(h));
            lemma_uint_roundtrip(x as nat, usize::MAX as nat);
        },
        HeaderView::ContentLocation(x) => dispatch_content_location(spec_header_name(h), x),
        HeaderView::ContentMd5(x) => {},
        HeaderView::ContentRange(x) => dispatch_content_range(spec_header_name(h), x),
        HeaderView::ContentType(x) => dispatch_content_type(spec_header_name(h), x),
        HeaderView::Expires(d) => {
            dispatch_expires(spec_header_name(h), spec_header_value(h));
            crate::date::lemma_date_roundtrip(d);
        },
        HeaderView::LastModified(d) => {
            dispatch_last_modified(spec_header_name(h), spec_header_value(h));
            crate::date::lemma_date_roundtrip(d);
        },
        HeaderView::ExtensionHeader(n, x) => {
            dispatch_extension(n, spec_maybe_quote(x));
            lemma_quote_roundtrip(x);
        },
    }
}

} // verus!

