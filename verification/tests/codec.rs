use httpcodec::collection::HeaderCollection;
use httpcodec::date::HttpDate;
use httpcodec::header::Header;
use httpcodec::quoting::{maybe_quote, maybe_unquote};
use httpcodec::tokens::Host;

fn roundtrip_quote(s: &[u8]) {
    let q = maybe_quote(s);
    let back = maybe_unquote(&q);
    assert_eq!(back, s.to_vec());
}

#[test]
fn quote_roundtrip_plain() {
    roundtrip_quote(b"token");
}

#[test]
fn quote_roundtrip_empty() {
    roundtrip_quote(b"");
}

#[test]
fn quote_roundtrip_spaces_and_quotes() {
    roundtrip_quote(b"need \"escaping\"");
    roundtrip_quote(b"back\\slash");
    roundtrip_quote(b"both \" and \\ here");
    roundtrip_quote(b"\\");
    roundtrip_quote(b"\"");
}

#[test]
fn quote_leaves_tokens_bare() {
    assert_eq!(maybe_quote(b"abc"), b"abc".to_vec());
    assert_eq!(maybe_quote(b"a b"), b"\"a b\"".to_vec());
}

#[test]
fn unquote_malformed_is_verbatim() {
    assert_eq!(maybe_unquote(b"\"abc"), b"\"abc".to_vec());
    assert_eq!(maybe_unquote(b"\"abc\\\""), b"\"abc\\\"".to_vec());
    assert_eq!(maybe_unquote(b"\"a\"b\""), b"\"a\"b\"".to_vec());
}

#[test]
fn content_length_forty_two() {
    match Header::value_from_stream(b"Content-Length", b"42") {
        Some(Header::ContentLength(n)) => assert_eq!(n, 42),
        _ => panic!("Content-Length: 42 must parse to 42"),
    }
}

#[test]
fn content_length_non_numeric() {
    assert!(Header::value_from_stream(b"Content-Length", b"abc").is_none());
    assert!(Header::value_from_stream(b"Content-Length", b"").is_none());
    assert!(Header::value_from_stream(b"Content-Length", b"1x2").is_none());
}

#[test]
fn content_length_overflow() {
    assert!(Header::value_from_stream(b"Content-Length", b"99999999999999999999999999").is_none());
}

#[test]
fn max_forwards_zero() {
    match Header::value_from_stream(b"Max-Forwards", b"0") {
        Some(Header::MaxForwards(n)) => assert_eq!(n, 0),
        _ => panic!("Max-Forwards: 0 must parse to 0"),
    }
}

#[test]
fn content_length_writes_exact_line() {
    let h = Header::ContentLength(42);
    let mut out = Vec::new();
    h.write_header(&mut out);
    assert_eq!(out, b"Content-Length: 42\r\n".to_vec());
}

#[test]
fn extension_roundtrip_with_escaping() {
    let q = maybe_quote(b"need \"escaping\"");
    match Header::value_from_stream(b"X-Custom", &q) {
        Some(Header::ExtensionHeader(name, value)) => {
            assert_eq!(name, b"X-Custom".to_vec());
            assert_eq!(value, b"need \"escaping\"".to_vec());
        },
        _ => panic!("extension parsing cannot fail"),
    }
}

#[test]
fn extension_name_keeps_case() {
    let h = Header::ExtensionHeader(b"X-MiXeD-CaSe".to_vec(), b"v".to_vec());
    assert_eq!(h.header_name(), b"X-MiXeD-CaSe".to_vec());
    let mut out = Vec::new();
    h.write_header(&mut out);
    assert_eq!(out, b"X-MiXeD-CaSe: v\r\n".to_vec());
}

#[test]
fn canonical_names() {
    assert_eq!(Header::Te(b"x".to_vec()).header_name(), b"TE".to_vec());
    assert_eq!(Header::ContentMd5(b"x".to_vec()).header_name(), b"Content-MD5".to_vec());
    assert_eq!(
        Header::IfNoneMatch(b"x".to_vec()).header_name(),
        b"If-None-Match".to_vec()
    );
    assert_eq!(Header::CacheControl(b"x".to_vec()).header_name(), b"Cache-Control".to_vec());
}

#[test]
fn table_matches_exact_spelling() {
    // the table matches `Te`, not the canonical `TE`
    match Header::value_from_stream(b"Te", b"deflate") {
        Some(Header::Te(v)) => assert_eq!(v, b"deflate".to_vec()),
        _ => panic!("Te must dispatch to the TE field"),
    }
    match Header::value_from_stream(b"TE", b"deflate") {
        Some(Header::ExtensionHeader(name, _)) => assert_eq!(name, b"TE".to_vec()),
        _ => panic!("TE is not in the table and must become an extension"),
    }
}

#[test]
fn date_roundtrip() {
    let d = HttpDate { weekday: 0, day: 6, month: 11, year: 1994, hour: 8, minute: 49, second: 37 };
    let h = Header::Date(d);
    let mut out = Vec::new();
    h.write_header(&mut out);
    assert_eq!(out, b"Date: Sun, 06 Nov 1994 08:49:37 GMT\r\n".to_vec());
    match Header::value_from_stream(b"Date", b"Sun, 06 Nov 1994 08:49:37 GMT") {
        Some(Header::Date(back)) => assert_eq!(back, d),
        _ => panic!("an RFC 1123 date must parse"),
    }
}

#[test]
fn date_rejects_other_shapes() {
    assert!(Header::value_from_stream(b"Date", b"yesterday").is_none());
    assert!(Header::value_from_stream(b"Expires", b"Xun, 06 Nov 1994 08:49:37 GMT").is_none());
    assert!(Header::value_from_stream(b"Date", b"Sun, 06 Xov 1994 08:49:37 GMT").is_none());
    assert!(Header::value_from_stream(b"Date", b"Sun, 00 Nov 1994 08:49:37 GMT").is_none());
}

#[test]
fn connection_tokens() {
    match Header::value_from_stream(b"Connection", b"close, keep-alive") {
        Some(Header::Connection(ts)) => {
            assert_eq!(ts, vec![b"close".to_vec(), b"keep-alive".to_vec()]);
        },
        _ => panic!("a token list must parse"),
    }
    assert!(Header::value_from_stream(b"Connection", b"close,,").is_none());
    assert!(Header::value_from_stream(b"Connection", b"").is_none());
}

#[test]
fn connection_writes_joined() {
    let h = Header::Connection(vec![b"close".to_vec(), b"upgrade".to_vec()]);
    let mut out = Vec::new();
    h.write_header(&mut out);
    assert_eq!(out, b"Connection: close, upgrade\r\n".to_vec());
}

#[test]
fn allow_methods() {
    match Header::value_from_stream(b"Allow", b"GET, HEAD") {
        Some(Header::Allow(ts)) => assert_eq!(ts, vec![b"GET".to_vec(), b"HEAD".to_vec()]),
        _ => panic!("a method list must parse"),
    }
}

#[test]
fn host_with_and_without_port() {
    match Header::value_from_stream(b"Host", b"example.com:8080") {
        Some(Header::Host(h)) => {
            assert_eq!(h.name, b"example.com".to_vec());
            assert_eq!(h.port, Some(8080));
        },
        _ => panic!("a host with a port must parse"),
    }
    match Header::value_from_stream(b"Host", b"example.com") {
        Some(Header::Host(h)) => {
            assert_eq!(h.name, b"example.com".to_vec());
            assert_eq!(h.port, None);
        },
        _ => panic!("a bare host must parse"),
    }
    assert!(Header::value_from_stream(b"Host", b":80").is_none());
    assert!(Header::value_from_stream(b"Host", b"example.com:").is_none());
    assert!(Header::value_from_stream(b"Host", b"example.com:99999").is_none());
}

#[test]
fn insert_last_value_wins() {
    let mut c = HeaderCollection::new();
    c.insert(Header::CacheControl(b"no-cache".to_vec()));
    c.insert(Header::CacheControl(b"max-age=0".to_vec()));
    assert_eq!(c.cache_control, Some(b"max-age=0".to_vec()));
    c.insert(Header::ContentLength(1));
    c.insert(Header::ContentLength(2));
    assert_eq!(c.content_length, Some(2));
}

#[test]
fn new_collection_is_empty() {
    let c = HeaderCollection::new();
    assert_eq!(c.cache_control, None);
    assert_eq!(c.host, None);
    assert_eq!(c.content_length, None);
    assert!(c.extensions.is_empty());
}

#[test]
fn only_host_writes_one_line() {
    let mut c = HeaderCollection::new();
    c.insert(Header::Host(Host { name: b"example.com".to_vec(), port: None }));
    let mut out = Vec::new();
    c.write_to(&mut out);
    assert_eq!(out, b"Host: example.com\r\n".to_vec());
}

#[test]
fn extensions_write_in_key_order() {
    let mut c = HeaderCollection::new();
    c.insert(Header::ExtensionHeader(b"X-Later".to_vec(), b"2".to_vec()));
    c.insert(Header::ExtensionHeader(b"X-Early".to_vec(), b"1".to_vec()));
    let mut out = Vec::new();
    c.write_to(&mut out);
    assert_eq!(out, b"X-Early: 1\r\nX-Later: 2\r\n".to_vec());
}

#[test]
fn extension_same_key_overwrites() {
    let mut c = HeaderCollection::new();
    c.insert(Header::ExtensionHeader(b"X-K".to_vec(), b"old".to_vec()));
    c.insert(Header::ExtensionHeader(b"X-K".to_vec(), b"new".to_vec()));
    assert_eq!(c.extensions.len(), 1);
    assert_eq!(c.extensions[0].1, b"new".to_vec());
}

#[test]
fn opaque_text_passthrough() {
    match Header::value_from_stream(b"User-Agent", b"curl/8.0 (x; y)") {
        Some(Header::UserAgent(v)) => assert_eq!(v, b"curl/8.0 (x; y)".to_vec()),
        _ => panic!("opaque text always parses"),
    }
    let h = Header::UserAgent(b"curl/8.0 (x; y)".to_vec());
    let mut out = Vec::new();
    h.write_header(&mut out);
    assert_eq!(out, b"User-Agent: curl/8.0 (x; y)\r\n".to_vec());
}
