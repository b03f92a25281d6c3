//! The header collection: one optional slot per known field, overwritten on
//! repeated insertion (last write wins), and an ordered-by-key mapping of
//! extension fields, built by folding header variants one by one; and the
//! write path that emits one wire line per occupied slot.
use vstd::prelude::*;

use crate::date::{spec_format_date, wf_date, HttpDate};
use crate::header::{
    colon_sp, crlf, push_line_date, push_line_ext, push_line_host, push_line_text,
    push_line_tokens, push_line_uint, Header, HeaderView,
};
use crate::num::spec_digits;
use crate::quoting::spec_maybe_quote;
use crate::tokens::{
    seqs_view, spec_format_host, spec_join_tokens, wf_host, wf_tokens, Host, HostView,
};
use crate::util::{bytes_eq, lemma_lex_trichotomy, lemma_lex_transitive, lex_cmp, lex_lt};

verus! {

use vstd::string::StringSliceAdditionalSpecFns;

/// The per-message aggregate of request headers.
pub struct HeaderCollection {

    pub cache_control: Option<Vec<u8>>,
    pub connection: Option<Vec<Vec<u8>>>,
    pub date: Option<HttpDate>,
    pub pragma: Option<Vec<u8>>,
    pub trailer: Option<Vec<u8>>,
    pub transfer_encoding: Option<Vec<u8>>,
    pub upgrade: Option<Vec<u8>>,
    pub via: Option<Vec<u8>>,
    pub warning: Option<Vec<u8>>,
    pub accept: Option<Vec<u8>>,
    pub accept_charset: Option<Vec<u8>>,
    pub accept_encoding: Option<Vec<u8>>,
    pub accept_language: Option<Vec<u8>>,
    pub authorization: Option<Vec<u8>>,
    pub expect: Option<Vec<u8>>,
    pub from: Option<Vec<u8>>,
    pub host: Option<Host>,
    pub if_match: Option<Vec<u8>>,
    pub if_modified_since: Option<HttpDate>,
    pub if_none_match: Option<Vec<u8>>,
    pub if_range: Option<Vec<u8>>,
    pub if_unmodified_since: Option<HttpDate>,
    pub max_forwards: Option<usize>,
    pub proxy_authorization: Option<Vec<u8>>,
    pub range: Option<Vec<u8>>,
    pub referer: Option<Vec<u8>>,
    pub te: Option<Vec<u8>>,
    pub user_agent: Option<Vec<u8>>,
    pub allow: Option<Vec<Vec<u8>>>,
    pub content_encoding: Option<Vec<u8>>,
    pub content_language: Option<Vec<u8>>,
    pub content_length: Option<usize>,
    pub content_location: Option<Vec<u8>>,
    pub content_md5: Option<Vec<u8>>,
    pub content_range: Option<Vec<u8>>,
    pub content_type: Option<Vec<u8>>,
    pub expires: Option<HttpDate>,
    pub last_modified: Option<HttpDate>,
    pub extensions: Vec<(Vec<u8>, Vec<u8>)>,
}

/// The spec-level shape of a collection.
#[verifier::ext_equal]
pub ghost struct CollectionView {

    pub cache_control: Option<Seq<u8>>,
    pub connection: Option<Seq<Seq<u8>>>,
    pub date: Option<HttpDate>,
    pub pragma: Option<Seq<u8>>,
    pub trailer: Option<Seq<u8>>,
    pub transfer_encoding: Option<Seq<u8>>,
    pub upgrade: Option<Seq<u8>>,
    pub via: Option<Seq<u8>>,
    pub warning: Option<Seq<u8>>,
    pub accept: Option<Seq<u8>>,
    pub accept_charset: Option<Seq<u8>>,
    pub accept_encoding: Option<Seq<u8>>,
    pub accept_language: Option<Seq<u8>>,
    pub authorization: Option<Seq<u8>>,
    pub expect: Option<Seq<u8>>,
    pub from: Option<Seq<u8>>,
    pub host: Option<HostView>,
    pub if_match: Option<Seq<u8>>,
    pub if_modified_since: Option<HttpDate>,
    pub if_none_match: Option<Seq<u8>>,
    pub if_range: Option<Seq<u8>>,
    pub if_unmodified_since: Option<HttpDate>,
    pub max_forwards: Option<usize>,
    pub proxy_authorization: Option<Seq<u8>>,
    pub range: Option<Seq<u8>>,
    pub referer: Option<Seq<u8>>,
    pub te: Option<Seq<u8>>,
    pub user_agent: Option<Seq<u8>>,
    pub allow: Option<Seq<Seq<u8>>>,
    pub content_encoding: Option<Seq<u8>>,
    pub content_language: Option<Seq<u8>>,
    pub content_length: Option<usize>,
    pub content_location: Option<Seq<u8>>,
    pub content_md5: Option<Seq<u8>>,
    pub content_range: Option<Seq<u8>>,
    pub content_type: Option<Seq<u8>>,
    pub expires: Option<HttpDate>,
    pub last_modified: Option<HttpDate>,
    pub extensions: Seq<(Seq<u8>, Seq<u8>)>,
}

/// The byte sequence an optional byte vector stands for.
pub open spec fn opt_bytes(o: Option<Vec<u8>>) -> Option<Seq<u8>> {
    match o {
        Some(v) => Some(v@),
        None => None,
    }
}

/// The token sequences an optional token-list vector stands for.
pub open spec fn opt_tokens(o: Option<Vec<Vec<u8>>>) -> Option<Seq<Seq<u8>>> {
    match o {
        Some(v) => Some(seqs_view(v@)),
        None => None,
    }
}

/// The host view an optional host stands for.
pub open spec fn opt_host(o: Option<Host>) -> Option<HostView> {
    match o {
        Some(h) => Some(h@),
        None => None,
    }
}

/// The key/value pairs an extension vector stands for.
pub open spec fn pairs_view(s: Seq<(Vec<u8>, Vec<u8>)>) -> Seq<(Seq<u8>, Seq<u8>)> {
    s.map_values(|p: (Vec<u8>, Vec<u8>)| (p.0@, p.1@))
}

impl View for HeaderCollection {
    type V = CollectionView;

    open spec fn view(&self) -> CollectionView {
        CollectionView {

            cache_control: opt_bytes(self.cache_control),
            connection: opt_tokens(self.connection),
            date: self.date,
            pragma: opt_bytes(self.pragma),
            trailer: opt_bytes(self.trailer),
            transfer_encoding: opt_bytes(self.transfer_encoding),
            upgrade: opt_bytes(self.upgrade),
            via: opt_bytes(self.via),
            warning: opt_bytes(self.warning),
            accept: opt_bytes(self.accept),
            accept_charset: opt_bytes(self.accept_charset),
            accept_encoding: opt_bytes(self.accept_encoding),
            accept_language: opt_bytes(self.accept_language),
            authorization: opt_bytes(self.authorization),
            expect: opt_bytes(self.expect),
            from: opt_bytes(self.from),
            host: opt_host(self.host),
            if_match: opt_bytes(self.if_match),
            if_modified_since: self.if_modified_since,
            if_none_match: opt_bytes(self.if_none_match),
            if_range: opt_bytes(self.if_range),
            if_unmodified_since: self.if_unmodified_since,
            max_forwards: self.max_forwards,
            proxy_authorization: opt_bytes(self.proxy_authorization),
            range: opt_bytes(self.range),
            referer: opt_bytes(self.referer),
            te: opt_bytes(self.te),
            user_agent: opt_bytes(self.user_agent),
            allow: opt_tokens(self.allow),
            content_encoding: opt_bytes(self.content_encoding),
            content_language: opt_bytes(self.content_language),
            content_length: self.content_length,
            content_location: opt_bytes(self.content_location),
            content_md5: opt_bytes(self.content_md5),
            content_range: opt_bytes(self.content_range),
            content_type: opt_bytes(self.content_type),
            expires: self.expires,
            last_modified: self.last_modified,
            extensions: pairs_view(self.extensions@),
        }
    }
}

/// The extension mapping is strictly sorted by key, so each key occurs once.
pub open spec fn ext_sorted(s: Seq<(Seq<u8>, Seq<u8>)>) -> bool {
    forall|i: int, j: int| 0 <= i < j < s.len() ==> lex_lt(s[i].0, s[j].0)
}

/// The collection's invariant: extension keys strictly sorted, and every
/// occupied structured slot serializable.
pub open spec fn wf_collection(m: CollectionView) -> bool {
    &&& ext_sorted(m.extensions)

    &&& (m.connection matches Some(ts) ==> wf_tokens(ts))
    &&& (m.date matches Some(d) ==> wf_date(d))
    &&& (m.host matches Some(h) ==> wf_host(h))
    &&& (m.if_modified_since matches Some(d) ==> wf_date(d))
    &&& (m.if_unmodified_since matches Some(d) ==> wf_date(d))
    &&& (m.allow matches Some(ts) ==> wf_tokens(ts))
    &&& (m.expires matches Some(d) ==> wf_date(d))
    &&& (m.last_modified matches Some(d) ==> wf_date(d))
}

/// Inserts a key into the sorted extension mapping: before the first
/// larger key, replacing an equal key.
pub open spec fn ext_insert(s: Seq<(Seq<u8>, Seq<u8>)>, k: Seq<u8>, v: Seq<u8>) -> Seq<
    (Seq<u8>, Seq<u8>),
>
    decreases s.len(),
{
    if s.len() == 0 {
        seq![(k, v)]
    } else if lex_lt(s[0].0, k) {
        seq![s[0]] + ext_insert(s.skip(1), k, v)
    } else if s[0].0 == k {
        seq![(k, v)] + s.skip(1)
    } else {
        seq![(k, v)] + s
    }
}

/// What inserting a variant does: a known field overwrites its slot, an
/// extension field sets or overwrites its key's mapping entry.
pub open spec fn spec_insert(m: CollectionView, h: HeaderView) -> CollectionView {
    match h {

        HeaderView::CacheControl(x) => CollectionView { cache_control: Some(x), ..m },
        HeaderView::Connection(x) => CollectionView { connection: Some(x), ..m },
        HeaderView::Date(x) => CollectionView { date: Some(x), ..m },
        HeaderView::Pragma(x) => CollectionView { pragma: Some(x), ..m },
        HeaderView::Trailer(x) => CollectionView { trailer: Some(x), ..m },
        HeaderView::TransferEncoding(x) => CollectionView { transfer_encoding: Some(x), ..m },
        HeaderView::Upgrade(x) => CollectionView { upgrade: Some(x), ..m },
        HeaderView::Via(x) => CollectionView { via: Some(x), ..m },
        HeaderView::Warning(x) => CollectionView { warning: Some(x), ..m },
        HeaderView::Accept(x) => CollectionView { accept: Some(x), ..m },
        HeaderView::AcceptCharset(x) => CollectionView { accept_charset: Some(x), ..m },
        HeaderView::AcceptEncoding(x) => CollectionView { accept_encoding: Some(x), ..m },
        HeaderView::AcceptLanguage(x) => CollectionView { accept_language: Some(x), ..m },
        HeaderView::Authorization(x) => CollectionView { authorization: Some(x), ..m },
        HeaderView::Expect(x) => CollectionView { expect: Some(x), ..m },
        HeaderView::From(x) => CollectionView { from: Some(x), ..m },
        HeaderView::Host(x) => CollectionView { host: Some(x), ..m },
        HeaderView::IfMatch(x) => CollectionView { if_match: Some(x), ..m },
        HeaderView::IfModifiedSince(x) => CollectionView { if_modified_since: Some(x), ..m },
        HeaderView::IfNoneMatch(x) => CollectionView { if_none_match: Some(x), ..m },
        HeaderView::IfRange(x) => CollectionView { if_range: Some(x), ..m },
        HeaderView::IfUnmodifiedSince(x) => CollectionView { if_unmodified_since: Some(x), ..m },
        HeaderView::MaxForwards(x) => CollectionView { max_forwards: Some(x), ..m },
        HeaderView::ProxyAuthorization(x) => CollectionView { proxy_authorization: Some(x), ..m },
        HeaderView::Range(x) => CollectionView { range: Some(x), ..m },
        HeaderView::Referer(x) => CollectionView { referer: Some(x), ..m },
        HeaderView::Te(x) => CollectionView { te: Some(x), ..m },
        HeaderView::UserAgent(x) => CollectionView { user_agent: Some(x), ..m },
        HeaderView::Allow(x) => CollectionView { allow: Some(x), ..m },
        HeaderView::ContentEncoding(x) => CollectionView { content_encoding: Some(x), ..m },
        HeaderView::ContentLanguage(x) => CollectionView { content_language: Some(x), ..m },
        HeaderView::ContentLength(x) => CollectionView { content_length: Some(x), ..m },
        HeaderView::ContentLocation(x) => CollectionView { content_location: Some(x), ..m },
        HeaderView::ContentMd5(x) => CollectionView { content_md5: Some(x), ..m },
        HeaderView::ContentRange(x) => CollectionView { content_range: Some(x), ..m },
        HeaderView::ContentType(x) => CollectionView { content_type: Some(x), ..m },
        HeaderView::Expires(x) => CollectionView { expires: Some(x), ..m },
        HeaderView::LastModified(x) => CollectionView { last_modified: Some(x), ..m },
        HeaderView::ExtensionHeader(n, x) => CollectionView {
            extensions: ext_insert(m.extensions, n, x),
            ..m
        },
    }
}

/// An empty collection.
pub open spec fn spec_empty() -> CollectionView {
    CollectionView {

        cache_control: None,
        connection: None,
        date: None,
        pragma: None,
        trailer: None,
        transfer_encoding: None,
        upgrade: None,
        via: None,
        warning: None,
        accept: None,
        accept_charset: None,
        accept_encoding: None,
        accept_language: None,
        authorization: None,
        expect: None,
        from: None,
        host: None,
        if_match: None,
        if_modified_since: None,
        if_none_match: None,
        if_range: None,
        if_unmodified_since: None,
        max_forwards: None,
        proxy_authorization: None,
        range: None,
        referer: None,
        te: None,
        user_agent: None,
        allow: None,
        content_encoding: None,
        content_language: None,
        content_length: None,
        content_location: None,
        content_md5: None,
        content_range: None,
        content_type: None,
        expires: None,
        last_modified: None,
        extensions: Seq::empty(),
    }
}


/// The wire line of slot `k` in field order, empty when the slot is.
pub open spec fn nth_line(m: CollectionView, k: int) -> Seq<u8> {

    if k == 0 {
        (match m.cache_control { Some(x) => "Cache-Control".spec_bytes() + colon_sp() + x + crlf(), None => Seq::empty() })
    } else if k == 1 {
        (match m.connection { Some(ts) => "Connection".spec_bytes() + colon_sp() + spec_join_tokens(ts) + crlf(), None => Seq::empty() })
    } else if k == 2 {
        (match m.date { Some(d) => "Date".spec_bytes() + colon_sp() + spec_format_date(d) + crlf(), None => Seq::empty() })
    } else if k == 3 {
        (match m.pragma { Some(x) => "Pragma".spec_bytes() + colon_sp() + x + crlf(), None => Seq::empty() })
    } else if k == 4 {
        (match m.trailer { Some(x) => "Trailer".spec_bytes() + colon_sp() + x + crlf(), None => Seq::empty() })
    } else if k == 5 {
        (match m.transfer_encoding { Some(x) => "Transfer-Encoding".spec_bytes() + colon_sp() + x + crlf(), None => Seq::empty() })
    } else if k == 6 {
        (match m.upgrade { Some(x) => "Upgrade".spec_bytes() + colon_sp() + x + crlf(), None => Seq::empty() })
    } else if k == 7 {
        (match m.via { Some(x) => "Via".spec_bytes() + colon_sp() + x + crlf(), None => Seq::empty() })
    } else if k == 8 {
        (match m.warning { Some(x) => "Warning".spec_bytes() + colon_sp() + x + crlf(), None => Seq::empty() })
    } else if k == 9 {
        (match m.accept { Some(x) => "Accept".spec_bytes() + colon_sp() + x + crlf(), None => Seq::empty() })
    } else if k == 10 {
        (match m.accept_charset { Some(x) => "Accept-Charset".spec_bytes() + colon_sp() + x + crlf(), None => Seq::empty() })
    } else if k == 11 {
        (match m.accept_encoding { Some(x) => "Accept-Encoding".spec_bytes() + colon_sp() + x + crlf(), None => Seq::empty() })
    } else if k == 12 {
        (match m.accept_language { Some(x) => "Accept-Language".spec_bytes() + colon_sp() + x + crlf(), None => Seq::empty() })
    } else if k == 13 {
        (match m.authorization { Some(x) => "Authorization".spec_bytes() + colon_sp() + x + crlf(), None => Seq::empty() })
    } else if k == 14 {
        (match m.expect { Some(x) => "Expect".spec_bytes() + colon_sp() + x + crlf(), None => Seq::empty() })
    } else if k == 15 {
        (match m.from { Some(x) => "From".spec_bytes() + colon_sp() + x + crlf(), None => Seq::empty() })
    } else if k == 16 {
        (match m.host { Some(h) => "Host".spec_bytes() + colon_sp() + spec_format_host(h) + crlf(), None => Seq::empty() })
    } else if k == 17 {
        (match m.if_match { Some(x) => "If-Match".spec_bytes() + colon_sp() + x + crlf(), None => Seq::empty() })
    } else if k == 18 {
        (match m.if_modified_since { Some(d) => "If-Modified-Since".spec_bytes() + colon_sp() + spec_format_date(d) + crlf(), None => Seq::empty() })
    } else if k == 19 {
        (match m.if_none_match { Some(x) => "If-None-Match".spec_bytes() + colon_sp() + x + crlf(), None => Seq::empty() })
    } else if k == 20 {
        (match m.if_range { Some(x) => "If-Range".spec_bytes() + colon_sp() + x + crlf(), None => Seq::empty() })
    } else if k == 21 {
        (match m.if_unmodified_since { Some(d) => "If-Unmodified-Since".spec_bytes() + colon_sp() + spec_format_date(d) + crlf(), None => Seq::empty() })
    } else if k == 22 {
        (match m.max_forwards { Some(n) => "Max-Forwards".spec_bytes() + colon_sp() + spec_digits(n as nat) + crlf(), None => Seq::empty() })
    } else if k == 23 {
        (match m.proxy_authorization { Some(x) => "Proxy-Authorization".spec_bytes() + colon_sp() + x + crlf(), None => Seq::empty() })
    } else if k == 24 {
        (match m.range { Some(x) => "Range".spec_bytes() + colon_sp() + x + crlf(), None => Seq::empty() })
    } else if k == 25 {
        (match m.referer { Some(x) => "Referer".spec_bytes() + colon_sp() + x + crlf(), None => Seq::empty() })
    } else if k == 26 {
        (match m.te { Some(x) => "TE".spec_bytes() + colon_sp() + x + crlf(), None => Seq::empty() })
    } else if k == 27 {
        (match m.user_agent { Some(x) => "User-Agent".spec_bytes() + colon_sp() + x + crlf(), None => Seq::empty() })
    } else if k == 28 {
        (match m.allow { Some(ts) => "Allow".spec_bytes() + colon_sp() + spec_join_tokens(ts) + crlf(), None => Seq::empty() })
    } else if k == 29 {
        (match m.content_encoding { Some(x) => "Content-Encoding".spec_bytes() + colon_sp() + x + crlf(), None => Seq::empty() })
    } else if k == 30 {
        (match m.content_language { Some(x) => "Content-Language".spec_bytes() + colon_sp() + x + crlf(), None => Seq::empty() })
    } else if k == 31 {
        (match m.content_length { Some(n) => "Content-Length".spec_bytes() + colon_sp() + spec_digits(n as nat) + crlf(), None => Seq::empty() })
    } else if k == 32 {
        (match m.content_location { Some(x) => "Content-Location".spec_bytes() + colon_sp() + x + crlf(), None => Seq::empty() })
    } else if k == 33 {
        (match m.content_md5 { Some(x) => "Content-MD5".spec_bytes() + colon_sp() + x + crlf(), None => Seq::empty() })
    } else if k == 34 {
        (match m.content_range { Some(x) => "Content-Range".spec_bytes() + colon_sp() + x + crlf(), None => Seq::empty() })
    } else if k == 35 {
        (match m.content_type { Some(x) => "Content-Type".spec_bytes() + colon_sp() + x + crlf(), None => Seq::empty() })
    } else if k == 36 {
        (match m.expires { Some(d) => "Expires".spec_bytes() + colon_sp() + spec_format_date(d) + crlf(), None => Seq::empty() })
    } else if k == 37 {
        (match m.last_modified { Some(d) => "Last-Modified".spec_bytes() + colon_sp() + spec_format_date(d) + crlf(), None => Seq::empty() })
    } else {
        Seq::empty()
    }
}

/// The wire lines of the extension fields, in mapping order.
pub open spec fn ext_lines(s: Seq<(Seq<u8>, Seq<u8>)>) -> Seq<u8>
    decreases s.len(),
{
    if s.len() == 0 {
        Seq::empty()
    } else {
        (s[0].0 + colon_sp() + spec_maybe_quote(s[0].1) + crlf()) + ext_lines(s.skip(1))
    }
}

/// What writing a collection emits: one line per occupied known slot in
/// field order, then one line per extension entry in key order.
pub open spec fn spec_collection_bytes(m: CollectionView) -> Seq<u8> {

    lines_between(m, 0, 38) + ext_lines(m.extensions)
}


/// Positional form of [`ext_insert`]: at the first index whose key is not
/// below the new key, the entry is replaced or the pair inserted.
proof fn lemma_ext_insert_at(s: Seq<(Seq<u8>, Seq<u8>)>, k: Seq<u8>, v: Seq<u8>, idx: int)
    requires
        0 <= idx <= s.len(),
        forall|j: int| 0 <= j < idx ==> lex_lt(#[trigger] s[j].0, k),
        idx < s.len() ==> !lex_lt(s[idx].0, k),
    ensures
        ext_insert(s, k, v) == (if idx < s.len() && s[idx].0 == k {
            s.update(idx, (k, v))
        } else {
            s.take(idx) + seq![(k, v)] + s.skip(idx)
        }),
    decreases idx,
{
    if idx == 0 {
        if s.len() > 0 && s[0].0 == k {
            assert(ext_insert(s, k, v) =~= s.update(0, (k, v)));
        } else {
            assert(s.take(0) =~= Seq::<(Seq<u8>, Seq<u8>)>::empty());
            assert(s.skip(0) =~= s);
            if s.len() == 0 {
                assert(ext_insert(s, k, v) =~= s.take(0) + seq![(k, v)] + s.skip(0));
            } else {
                assert(ext_insert(s, k, v) =~= s.take(0) + seq![(k, v)] + s.skip(0));
            }
        }
    } else {
        assert(lex_lt(s[0].0, k));
        lemma_ext_insert_at(s.skip(1), k, v, idx - 1);
        assert(forall|j: int| 0 <= j < idx - 1 ==> lex_lt(#[trigger] s.skip(1)[j].0, k));
        if idx < s.len() && s[idx].0 == k {
            assert(s.skip(1)[idx - 1].0 == k);
            assert(seq![s[0]] + s.skip(1).update(idx - 1, (k, v)) =~= s.update(idx, (k, v)));
        } else {
            assert(s.skip(1).take(idx - 1) =~= s.take(idx).skip(1));
            assert(seq![s[0]] + (s.take(idx).skip(1) + seq![(k, v)] + s.skip(1).skip(idx - 1))
                =~= s.take(idx) + seq![(k, v)] + s.skip(idx));
        }
    }
}

/// The positional insertion keeps the extension mapping strictly sorted.
proof fn lemma_sorted_after(s: Seq<(Seq<u8>, Seq<u8>)>, k: Seq<u8>, v: Seq<u8>, idx: int)
    requires
        ext_sorted(s),
        0 <= idx <= s.len(),
        forall|j: int| 0 <= j < idx ==> lex_lt(#[trigger] s[j].0, k),
        idx < s.len() ==> !lex_lt(s[idx].0, k),
    ensures
        ext_sorted(ext_insert(s, k, v)),
{
    lemma_ext_insert_at(s, k, v, idx);
    if idx < s.len() && s[idx].0 == k {
        let r = s.update(idx, (k, v));
        assert forall|i: int, j: int| 0 <= i < j < r.len() implies lex_lt(r[i].0, r[j].0) by {
            assert(lex_lt(s[i].0, s[j].0));
        }
    } else {
        let r = s.take(idx) + seq![(k, v)] + s.skip(idx);
        if idx < s.len() {
            lemma_lex_trichotomy(s[idx as int].0, k);
            assert(lex_lt(k, s[idx as int].0));
        }
        assert forall|i: int, j: int| 0 <= i < j < r.len() implies lex_lt(r[i].0, r[j].0) by {
            if i < idx {
                assert(r[i] == s[i]);
            } else if i == idx {
                assert(r[i] == (k, v));
            } else {
                assert(r[i] == s[i - 1]);
            }
            if j < idx {
                assert(r[j] == s[j]);
            } else if j == idx {
                assert(r[j] == (k, v));
            } else {
                assert(r[j] == s[j - 1]);
            }
            if j == idx {
                assert(lex_lt(r[i].0, k));
            } else if j > idx && i == idx {
                if j - 1 > idx {
                    lemma_lex_transitive(k, s[idx as int].0, s[j - 1].0);
                }
            }
        }
    }
}


impl HeaderCollection {
    /// Returns a collection with every slot empty and no extension fields.
    pub fn new() -> (r: HeaderCollection)
        ensures
            r@ == spec_empty(),
            wf_collection(r@),
    {
        let r = HeaderCollection {

            cache_control: None,
            connection: None,
            date: None,
            pragma: None,
            trailer: None,
            transfer_encoding: None,
            upgrade: None,
            via: None,
            warning: None,
            accept: None,
            accept_charset: None,
            accept_encoding: None,
            accept_language: None,
            authorization: None,
            expect: None,
            from: None,
            host: None,
            if_match: None,
            if_modified_since: None,
            if_none_match: None,
            if_range: None,
            if_unmodified_since: None,
            max_forwards: None,
            proxy_authorization: None,
            range: None,
            referer: None,
            te: None,
            user_agent: None,
            allow: None,
            content_encoding: None,
            content_language: None,
            content_length: None,
            content_location: None,
            content_md5: None,
            content_range: None,
            content_type: None,
            expires: None,
            last_modified: None,
            extensions: Vec::new(),
        };
        proof {
            assert(r@ =~~= spec_empty());
        }
        r
    }

    /// Consumes one header variant, overwriting the matching slot or
    /// extension entry: on duplicate fields the last value wins.
    pub fn insert(&mut self, header: Header)
        requires
            crate::header::wf_header(header@),
            wf_collection(old(self)@),
        ensures
            final(self)@ == spec_insert(old(self)@, header@),
            wf_collection(final(self)@),
    {
        let ghost hv = header@;
        match header {

            Header::CacheControl(x) => {
                self.cache_control = Some(x);
                proof {
                    assert(self@ =~~= spec_insert(old(self)@, hv));
                }
            },
            Header::Connection(x) => {
                self.connection = Some(x);
                proof {
                    assert(self@ =~~= spec_insert(old(self)@, hv));
                }
            },
            Header::Date(x) => {
                self.date = Some(x);
                proof {
                    assert(self@ =~~= spec_insert(old(self)@, hv));
                }
            },
            Header::Pragma(x) => {
                self.pragma = Some(x);
                proof {
                    assert(self@ =~~= spec_insert(old(self)@, hv));
                }
            },
            Header::Trailer(x) => {
                self.trailer = Some(x);
                proof {
                    assert(self@ =~~= spec_insert(old(self)@, hv));
                }
            },
            Header::TransferEncoding(x) => {
                self.transfer_encoding = Some(x);
                proof {
                    assert(self@ =~~= spec_insert(old(self)@, hv));
                }
            },
            Header::Upgrade(x) => {
                self.upgrade = Some(x);
                proof {
                    assert(self@ =~~= spec_insert(old(self)@, hv));
                }
            },
            Header::Via(x) => {
                self.via = Some(x);
                proof {
                    assert(self@ =~~= spec_insert(old(self)@, hv));
                }
            },
            Header::Warning(x) => {
                self.warning = Some(x);
                proof {
                    assert(self@ =~~= spec_insert(old(self)@, hv));
                }
            },
            Header::Accept(x) => {
                self.accept = Some(x);
                proof {
                    assert(self@ =~~= spec_insert(old(self)@, hv));
                }
            },
            Header::AcceptCharset(x) => {
                self.accept_charset = Some(x);
                proof {
                    assert(self@ =~~= spec_insert(old(self)@, hv));
                }
            },
            Header::AcceptEncoding(x) => {
                self.accept_encoding = Some(x);
                proof {
                    assert(self@ =~~= spec_insert(old(self)@, hv));
                }
            },
            Header::AcceptLanguage(x) => {
                self.accept_language = Some(x);
                proof {
                    assert(self@ =~~= spec_insert(old(self)@, hv));
                }
            },
            Header::Authorization(x) => {
                self.authorization = Some(x);
                proof {
                    assert(self@ =~~= spec_insert(old(self)@, hv));
                }
            },
            Header::Expect(x) => {
                self.expect = Some(x);
                proof {
                    assert(self@ =~~= spec_insert(old(self)@, hv));
                }
            },
            Header::From(x) => {
                self.from = Some(x);
                proof {
                    assert(self@ =~~= spec_insert(old(self)@, hv));
                }
            },
            Header::Host(x) => {
                self.host = Some(x);
                proof {
                    assert(self@ =~~= spec_insert(old(self)@, hv));
                }
            },
            Header::IfMatch(x) => {
                self.if_match = Some(x);
                proof {
                    assert(self@ =~~= spec_insert(old(self)@, hv));
                }
            },
            Header::IfModifiedSince(x) => {
                self.if_modified_since = Some(x);
                proof {
                    assert(self@ =~~= spec_insert(old(self)@, hv));
                }
            },
            Header::IfNoneMatch(x) => {
                self.if_none_match = Some(x);
                proof {
                    assert(self@ =~~= spec_insert(old(self)@, hv));
                }
            },
            Header::IfRange(x) => {
                self.if_range = Some(x);
                proof {
                    assert(self@ =~~= spec_insert(old(self)@, hv));
                }
            },
            Header::IfUnmodifiedSince(x) => {
                self.if_unmodified_since = Some(x);
                proof {
                    assert(self@ =~~= spec_insert(old(self)@, hv));
                }
            },
            Header::MaxForwards(x) => {
                self.max_forwards = Some(x);
                proof {
                    assert(self@ =~~= spec_insert(old(self)@, hv));
                }
            },
            Header::ProxyAuthorization(x) => {
                self.proxy_authorization = Some(x);
                proof {
                    assert(self@ =~~= spec_insert(old(self)@, hv));
                }
            },
            Header::Range(x) => {
                self.range = Some(x);
                proof {
                    assert(self@ =~~= spec_insert(old(self)@, hv));
                }
            },
            Header::Referer(x) => {
                self.referer = Some(x);
                proof {
                    assert(self@ =~~= spec_insert(old(self)@, hv));
                }
            },
            Header::Te(x) => {
                self.te = Some(x);
                proof {
                    assert(self@ =~~= spec_insert(old(self)@, hv));
                }
            },
            Header::UserAgent(x) => {
                self.user_agent = Some(x);
                proof {
                    assert(self@ =~~= spec_insert(old(self)@, hv));
                }
            },
            Header::Allow(x) => {
                self.allow = Some(x);
                proof {
                    assert(self@ =~~= spec_insert(old(self)@, hv));
                }
            },
            Header::ContentEncoding(x) => {
                self.content_encoding = Some(x);
                proof {
                    assert(self@ =~~= spec_insert(old(self)@, hv));
                }
            },
            Header::ContentLanguage(x) => {
                self.content_language = Some(x);
                proof {
                    assert(self@ =~~= spec_insert(old(self)@, hv));
                }
            },
            Header::ContentLength(x) => {
                self.content_length = Some(x);
                proof {
                    assert(self@ =~~= spec_insert(old(self)@, hv));
                }
            },
            Header::ContentLocation(x) => {
                self.content_location = Some(x);
                proof {
                    assert(self@ =~~= spec_insert(old(self)@, hv));
                }
            },
            Header::ContentMd5(x) => {
                self.content_md5 = Some(x);
                proof {
                    assert(self@ =~~= spec_insert(old(self)@, hv));
                }
            },
            Header::ContentRange(x) => {
                self.content_range = Some(x);
                proof {
                    assert(self@ =~~= spec_insert(old(self)@, hv));
                }
            },
            Header::ContentType(x) => {
                self.content_type = Some(x);
                proof {
                    assert(self@ =~~= spec_insert(old(self)@, hv));
                }
            },
            Header::Expires(x) => {
                self.expires = Some(x);
                proof {
                    assert(self@ =~~= spec_insert(old(self)@, hv));
                }
            },
            Header::LastModified(x) => {
                self.last_modified = Some(x);
                proof {
                    assert(self@ =~~= spec_insert(old(self)@, hv));
                }
            },
            Header::ExtensionHeader(name, value) => {
                let ghost s = pairs_view(self.extensions@);
                let ghost n = name@;
                let ghost vv = value@;
                let mut idx: usize = 0;
                while idx < self.extensions.len() && lex_cmp(
                    self.extensions[idx].0.as_slice(),
                    name.as_slice(),
                ) == 1
                    invariant
                        idx <= s.len(),
                        s == pairs_view(self.extensions@),
                        n == name@,
                        forall|j: int| 0 <= j < idx ==> lex_lt(#[trigger] s[j].0, n),
                    decreases s.len() - idx,
                {
                    idx = idx + 1;
                }
                let replace: bool = idx < self.extensions.len() && bytes_eq(
                    self.extensions[idx].0.as_slice(),
                    name.as_slice(),
                );
                proof {
                    lemma_ext_insert_at(s, n, vv, idx as int);
                    lemma_sorted_after(s, n, vv, idx as int);
                }
                if replace {
                    self.extensions.remove(idx);
                    self.extensions.insert(idx, (name, value));
                    proof {
                        assert(pairs_view(self.extensions@) =~= s.update(idx as int, (n, vv)));
                    }
                } else {
                    self.extensions.insert(idx, (name, value));
                    proof {
                        assert(pairs_view(self.extensions@) =~= s.take(idx as int) + seq![(n, vv)]
                            + s.skip(idx as int));
                    }
                }
                proof {
                    assert(self@ =~~= spec_insert(old(self)@, hv));
                }
            },
        }
    }

}



/// The wire lines of slots `a` to `b` (exclusive), in field order.
pub open spec fn lines_between(m: CollectionView, a: int, b: int) -> Seq<u8>
    decreases b - a,
{
    if b <= a {
        Seq::empty()
    } else {
        lines_between(m, a, b - 1) + nth_line(m, b - 1)
    }
}

/// Concatenation of byte sequences associates.
proof fn lemma_add_assoc(a: Seq<u8>, b: Seq<u8>, c: Seq<u8>)
    ensures
        (a + b) + c == a + (b + c),
{
    assert((a + b) + c =~= a + (b + c));
}

/// The empty sequence is a right identity of concatenation.
proof fn lemma_add_empty(a: Seq<u8>)
    ensures
        a + Seq::<u8>::empty() == a,
{
    assert(a + Seq::<u8>::empty() =~= a);
}

/// Adjacent slot ranges concatenate.
proof fn lemma_lines_between_concat(m: CollectionView, a: int, b: int, c: int)
    requires
        a <= b <= c,
    ensures
        lines_between(m, a, c) == lines_between(m, a, b) + lines_between(m, b, c),
    decreases c - b,
{
    if c == b {
        lemma_add_empty(lines_between(m, a, b));
    } else {
        lemma_lines_between_concat(m, a, b, c - 1);
        lemma_add_assoc(lines_between(m, a, b), lines_between(m, b, c - 1), nth_line(m, c - 1));
    }
}


impl HeaderCollection {
    /// Appends the lines of slots 0 to 13 in field order.
    #[verifier::rlimit(100)]
    fn write_slots_a(&self, out: &mut Vec<u8>)
        requires
            wf_collection(self@),
        ensures
            final(out)@ == old(out)@ + lines_between(self@, 0, 13),
    {
        proof {
            lemma_add_empty(old(out)@);
            assert(out@ == old(out)@ + lines_between(self@, 0, 0));
        }
        match &self.cache_control {
            Some(x) => push_line_text(out, "Cache-Control", x.as_slice()),
            None => {},
        }
        proof {
            if self@.cache_control is Some {
                lemma_add_assoc(old(out)@, lines_between(self@, 0, 0), nth_line(self@, 0));
            } else {
                lemma_add_empty(lines_between(self@, 0, 0));
            }
            assert(out@ == old(out)@ + lines_between(self@, 0, 1));
        }
        match &self.connection {
            Some(ts) => push_line_tokens(out, "Connection", ts),
            None => {},
        }
        proof {
            if self@.connection is Some {
                lemma_add_assoc(old(out)@, lines_between(self@, 0, 1), nth_line(self@, 1));
            } else {
                lemma_add_empty(lines_between(self@, 0, 1));
            }
            assert(out@ == old(out)@ + lines_between(self@, 0, 2));
        }
        match &self.date {
            Some(d) => push_line_date(out, "Date", d),
            None => {},
        }
        proof {
            if self@.date is Some {
                lemma_add_assoc(old(out)@, lines_between(self@, 0, 2), nth_line(self@, 2));
            } else {
                lemma_add_empty(lines_between(self@, 0, 2));
            }
            assert(out@ == old(out)@ + lines_between(self@, 0, 3));
        }
        match &self.pragma {
            Some(x) => push_line_text(out, "Pragma", x.as_slice()),
            None => {},
        }
        proof {
            if self@.pragma is Some {
                lemma_add_assoc(old(out)@, lines_between(self@, 0, 3), nth_line(self@, 3));
            } else {
                lemma_add_empty(lines_between(self@, 0, 3));
            }
            assert(out@ == old(out)@ + lines_between(self@, 0, 4));
        }
        match &self.trailer {
            Some(x) => push_line_text(out, "Trailer", x.as_slice()),
            None => {},
        }
        proof {
            if self@.trailer is Some {
                lemma_add_assoc(old(out)@, lines_between(self@, 0, 4), nth_line(self@, 4));
            } else {
                lemma_add_empty(lines_between(self@, 0, 4));
            }
            assert(out@ == old(out)@ + lines_between(self@, 0, 5));
        }
        match &self.transfer_encoding {
            Some(x) => push_line_text(out, "Transfer-Encoding", x.as_slice()),
            None => {},
        }
        proof {
            if self@.transfer_encoding is Some {
                lemma_add_assoc(old(out)@, lines_between(self@, 0, 5), nth_line(self@, 5));
            } else {
                lemma_add_empty(lines_between(self@, 0, 5));
            }
            assert(out@ == old(out)@ + lines_between(self@, 0, 6));
        }
        match &self.upgrade {
            Some(x) => push_line_text(out, "Upgrade", x.as_slice()),
            None => {},
        }
        proof {
            if self@.upgrade is Some {
                lemma_add_assoc(old(out)@, lines_between(self@, 0, 6), nth_line(self@, 6));
            } else {
                lemma_add_empty(lines_between(self@, 0, 6));
            }
            assert(out@ == old(out)@ + lines_between(self@, 0, 7));
        }
        match &self.via {
            Some(x) => push_line_text(out, "Via", x.as_slice()),
            None => {},
        }
        proof {
            if self@.via is Some {
                lemma_add_assoc(old(out)@, lines_between(self@, 0, 7), nth_line(self@, 7));
            } else {
                lemma_add_empty(lines_between(self@, 0, 7));
            }
            assert(out@ == old(out)@ + lines_between(self@, 0, 8));
        }
        match &self.warning {
            Some(x) => push_line_text(out, "Warning", x.as_slice()),
            None => {},
        }
        proof {
            if self@.warning is Some {
                lemma_add_assoc(old(out)@, lines_between(self@, 0, 8), nth_line(self@, 8));
            } else {
                lemma_add_empty(lines_between(self@, 0, 8));
            }
            assert(out@ == old(out)@ + lines_between(self@, 0, 9));
        }
        match &self.accept {
            Some(x) => push_line_text(out, "Accept", x.as_slice()),
            None => {},
        }
        proof {
            if self@.accept is Some {
                lemma_add_assoc(old(out)@, lines_between(self@, 0, 9), nth_line(self@, 9));
            } else {
                lemma_add_empty(lines_between(self@, 0, 9));
            }
            assert(out@ == old(out)@ + lines_between(self@, 0, 10));
        }
        match &self.accept_charset {
            Some(x) => push_line_text(out, "Accept-Charset", x.as_slice()),
            None => {},
        }
        proof {
            if self@.accept_charset is Some {
                lemma_add_assoc(old(out)@, lines_between(self@, 0, 10), nth_line(self@, 10));
            } else {
                lemma_add_empty(lines_between(self@, 0, 10));
            }
            assert(out@ == old(out)@ + lines_between(self@, 0, 11));
        }
        match &self.accept_encoding {
            Some(x) => push_line_text(out, "Accept-Encoding", x.as_slice()),
            None => {},
        }
        proof {
            if self@.accept_encoding is Some {
                lemma_add_assoc(old(out)@, lines_between(self@, 0, 11), nth_line(self@, 11));
            } else {
                lemma_add_empty(lines_between(self@, 0, 11));
            }
            assert(out@ == old(out)@ + lines_between(self@, 0, 12));
        }
        match &self.accept_language {
            Some(x) => push_line_text(out, "Accept-Language", x.as_slice()),
            None => {},
        }
        proof {
            if self@.accept_language is Some {
                lemma_add_assoc(old(out)@, lines_between(self@, 0, 12), nth_line(self@, 12));
            } else {
                lemma_add_empty(lines_between(self@, 0, 12));
            }
            assert(out@ == old(out)@ + lines_between(self@, 0, 13));
        }
    }
}


impl HeaderCollection {
    /// Appends the lines of slots 13 to 26 in field order.
    #[verifier::rlimit(100)]
    fn write_slots_b(&self, out: &mut Vec<u8>)
        requires
            wf_collection(self@),
        ensures
            final(out)@ == old(out)@ + lines_between(self@, 13, 26),
    {
        proof {
            lemma_add_empty(old(out)@);
            assert(out@ == old(out)@ + lines_between(self@, 13, 13));
        }
        match &self.authorization {
            Some(x) => push_line_text(out, "Authorization", x.as_slice()),
            None => {},
        }
        proof {
            if self@.authorization is Some {
                lemma_add_assoc(old(out)@, lines_between(self@, 13, 13), nth_line(self@, 13));
            } else {
                lemma_add_empty(lines_between(self@, 13, 13));
            }
            assert(out@ == old(out)@ + lines_between(self@, 13, 14));
        }
        match &self.expect {
            Some(x) => push_line_text(out, "Expect", x.as_slice()),
            None => {},
        }
        proof {
            if self@.expect is Some {
                lemma_add_assoc(old(out)@, lines_between(self@, 13, 14), nth_line(self@, 14));
            } else {
                lemma_add_empty(lines_between(self@, 13, 14));
            }
            assert(out@ == old(out)@ + lines_between(self@, 13, 15));
        }
        match &self.from {
            Some(x) => push_line_text(out, "From", x.as_slice()),
            None => {},
        }
        proof {
            if self@.from is Some {
                lemma_add_assoc(old(out)@, lines_between(self@, 13, 15), nth_line(self@, 15));
            } else {
                lemma_add_empty(lines_between(self@, 13, 15));
            }
            assert(out@ == old(out)@ + lines_between(self@, 13, 16));
        }
        match &self.host {
            Some(h) => push_line_host(out, "Host", h),
            None => {},
        }
        proof {
            if self@.host is Some {
                lemma_add_assoc(old(out)@, lines_between(self@, 13, 16), nth_line(self@, 16));
            } else {
                lemma_add_empty(lines_between(self@, 13, 16));
            }
            assert(out@ == old(out)@ + lines_between(self@, 13, 17));
        }
        match &self.if_match {
            Some(x) => push_line_text(out, "If-Match", x.as_slice()),
            None => {},
        }
        proof {
            if self@.if_match is Some {
                lemma_add_assoc(old(out)@, lines_between(self@, 13, 17), nth_line(self@, 17));
            } else {
                lemma_add_empty(lines_between(self@, 13, 17));
            }
            assert(out@ == old(out)@ + lines_between(self@, 13, 18));
        }
        match &self.if_modified_since {
            Some(d) => push_line_date(out, "If-Modified-Since", d),
            None => {},
        }
        proof {
            if self@.if_modified_since is Some {
                lemma_add_assoc(old(out)@, lines_between(self@, 13, 18), nth_line(self@, 18));
            } else {
                lemma_add_empty(lines_between(self@, 13, 18));
            }
            assert(out@ == old(out)@ + lines_between(self@, 13, 19));
        }
        match &self.if_none_match {
            Some(x) => push_line_text(out, "If-None-Match", x.as_slice()),
            None => {},
        }
        proof {
            if self@.if_none_match is Some {
                lemma_add_assoc(old(out)@, lines_between(self@, 13, 19), nth_line(self@, 19));
            } else {
                lemma_add_empty(lines_between(self@, 13, 19));
            }
            assert(out@ == old(out)@ + lines_between(self@, 13, 20));
        }
        match &self.if_range {
            Some(x) => push_line_text(out, "If-Range", x.as_slice()),
            None => {},
        }
        proof {
            if self@.if_range is Some {
                lemma_add_assoc(old(out)@, lines_between(self@, 13, 20), nth_line(self@, 20));
            } else {
                lemma_add_empty(lines_between(self@, 13, 20));
            }
            assert(out@ == old(out)@ + lines_between(self@, 13, 21));
        }
        match &self.if_unmodified_since {
            Some(d) => push_line_date(out, "If-Unmodified-Since", d),
            None => {},
        }
        proof {
            if self@.if_unmodified_since is Some {
                lemma_add_assoc(old(out)@, lines_between(self@, 13, 21), nth_line(self@, 21));
            } else {
                lemma_add_empty(lines_between(self@, 13, 21));
            }
            assert(out@ == old(out)@ + lines_between(self@, 13, 22));
        }
        match &self.max_forwards {
            Some(n) => push_line_uint(out, "Max-Forwards", *n),
            None => {},
        }
        proof {
            if self@.max_forwards is Some {
                lemma_add_assoc(old(out)@, lines_between(self@, 13, 22), nth_line(self@, 22));
            } else {
                lemma_add_empty(lines_between(self@, 13, 22));
            }
            assert(out@ == old(out)@ + lines_between(self@, 13, 23));
        }
        match &self.proxy_authorization {
            Some(x) => push_line_text(out, "Proxy-Authorization", x.as_slice()),
            None => {},
        }
        proof {
            if self@.proxy_authorization is Some {
                lemma_add_assoc(old(out)@, lines_between(self@, 13, 23), nth_line(self@, 23));
            } else {
                lemma_add_empty(lines_between(self@, 13, 23));
            }
            assert(out@ == old(out)@ + lines_between(self@, 13, 24));
        }
        match &self.range {
            Some(x) => push_line_text(out, "Range", x.as_slice()),
            None => {},
        }
        proof {
            if self@.range is Some {
                lemma_add_assoc(old(out)@, lines_between(self@, 13, 24), nth_line(self@, 24));
            } else {
                lemma_add_empty(lines_between(self@, 13, 24));
            }
            assert(out@ == old(out)@ + lines_between(self@, 13, 25));
        }
        match &self.referer {
            Some(x) => push_line_text(out, "Referer", x.as_slice()),
            None => {},
        }
        proof {
            if self@.referer is Some {
                lemma_add_assoc(old(out)@, lines_between(self@, 13, 25), nth_line(self@, 25));
            } else {
                lemma_add_empty(lines_between(self@, 13, 25));
            }
            assert(out@ == old(out)@ + lines_between(self@, 13, 26));
        }
    }
}


impl HeaderCollection {
    /// Appends the lines of slots 26 to 38 in field order.
    #[verifier::rlimit(100)]
    fn write_slots_c(&self, out: &mut Vec<u8>)
        requires
            wf_collection(self@),
        ensures
            final(out)@ == old(out)@ + lines_between(self@, 26, 38),
    {
        proof {
            lemma_add_empty(old(out)@);
            assert(out@ == old(out)@ + lines_between(self@, 26, 26));
        }
        match &self.te {
            Some(x) => push_line_text(out, "TE", x.as_slice()),
            None => {},
        }
        proof {
            if self@.te is Some {
                lemma_add_assoc(old(out)@, lines_between(self@, 26, 26), nth_line(self@, 26));
            } else {
                lemma_add_empty(lines_between(self@, 26, 26));
            }
            assert(out@ == old(out)@ + lines_between(self@, 26, 27));
        }
        match &self.user_agent {
            Some(x) => push_line_text(out, "User-Agent", x.as_slice()),
            None => {},
        }
        proof {
            if self@.user_agent is Some {
                lemma_add_assoc(old(out)@, lines_between(self@, 26, 27), nth_line(self@, 27));
            } else {
                lemma_add_empty(lines_between(self@, 26, 27));
            }
            assert(out@ == old(out)@ + lines_between(self@, 26, 28));
        }
        match &self.allow {
            Some(ts) => push_line_tokens(out, "Allow", ts),
            None => {},
        }
        proof {
            if self@.allow is Some {
                lemma_add_assoc(old(out)@, lines_between(self@, 26, 28), nth_line(self@, 28));
            } else {
                lemma_add_empty(lines_between(self@, 26, 28));
            }
            assert(out@ == old(out)@ + lines_between(self@, 26, 29));
        }
        match &self.content_encoding {
            Some(x) => push_line_text(out, "Content-Encoding", x.as_slice()),
            None => {},
        }
        proof {
            if self@.content_encoding is Some {
                lemma_add_assoc(old(out)@, lines_between(self@, 26, 29), nth_line(self@, 29));
            } else {
                lemma_add_empty(lines_between(self@, 26, 29));
            }
            assert(out@ == old(out)@ + lines_between(self@, 26, 30));
        }
        match &self.content_language {
            Some(x) => push_line_text(out, "Content-Language", x.as_slice()),
            None => {},
        }
        proof {
            if self@.content_language is Some {
                lemma_add_assoc(old(out)@, lines_between(self@, 26, 30), nth_line(self@, 30));
            } else {
                lemma_add_empty(lines_between(self@, 26, 30));
            }
            assert(out@ == old(out)@ + lines_between(self@, 26, 31));
        }
        match &self.content_length {
            Some(n) => push_line_uint(out, "Content-Length", *n),
            None => {},
        }
        proof {
            if self@.content_length is Some {
                lemma_add_assoc(old(out)@, lines_between(self@, 26, 31), nth_line(self@, 31));
            } else {
                lemma_add_empty(lines_between(self@, 26, 31));
            }
            assert(out@ == old(out)@ + lines_between(self@, 26, 32));
        }
        match &self.content_location {
            Some(x) => push_line_text(out, "Content-Location", x.as_slice()),
            None => {},
        }
        proof {
            if self@.content_location is Some {
                lemma_add_assoc(old(out)@, lines_between(self@, 26, 32), nth_line(self@, 32));
            } else {
                lemma_add_empty(lines_between(self@, 26, 32));
            }
            assert(out@ == old(out)@ + lines_between(self@, 26, 33));
        }
        match &self.content_md5 {
            Some(x) => push_line_text(out, "Content-MD5", x.as_slice()),
            None => {},
        }
        proof {
            if self@.content_md5 is Some {
                lemma_add_assoc(old(out)@, lines_between(self@, 26, 33), nth_line(self@, 33));
            } else {
                lemma_add_empty(lines_between(self@, 26, 33));
            }
            assert(out@ == old(out)@ + lines_between(self@, 26, 34));
        }
        match &self.content_range {
            Some(x) => push_line_text(out, "Content-Range", x.as_slice()),
            None => {},
        }
        proof {
            if self@.content_range is Some {
                lemma_add_assoc(old(out)@, lines_between(self@, 26, 34), nth_line(self@, 34));
            } else {
                lemma_add_empty(lines_between(self@, 26, 34));
            }
            assert(out@ == old(out)@ + lines_between(self@, 26, 35));
        }
        match &self.content_type {
            Some(x) => push_line_text(out, "Content-Type", x.as_slice()),
            None => {},
        }
        proof {
            if self@.content_type is Some {
                lemma_add_assoc(old(out)@, lines_between(self@, 26, 35), nth_line(self@, 35));
            } else {
                lemma_add_empty(lines_between(self@, 26, 35));
            }
            assert(out@ == old(out)@ + lines_between(self@, 26, 36));
        }
        match &self.expires {
            Some(d) => push_line_date(out, "Expires", d),
            None => {},
        }
        proof {
            if self@.expires is Some {
                lemma_add_assoc(old(out)@, lines_between(self@, 26, 36), nth_line(self@, 36));
            } else {
                lemma_add_empty(lines_between(self@, 26, 36));
            }
            assert(out@ == old(out)@ + lines_between(self@, 26, 37));
        }
        match &self.last_modified {
            Some(d) => push_line_date(out, "Last-Modified", d),
            None => {},
        }
        proof {
            if self@.last_modified is Some {
                lemma_add_assoc(old(out)@, lines_between(self@, 26, 37), nth_line(self@, 37));
            } else {
                lemma_add_empty(lines_between(self@, 26, 37));
            }
            assert(out@ == old(out)@ + lines_between(self@, 26, 38));
        }
    }
}


impl HeaderCollection {
    /// Appends one `Name: value\r\n` line for every occupied slot, in
    /// field order, then one line per extension entry in key order, with
    /// no trailing blank line.
    pub fn write_to(&self, out: &mut Vec<u8>)
        requires
            wf_collection(self@),
        ensures
            final(out)@ == old(out)@ + spec_collection_bytes(self@),
    {
        self.write_slots_a(out);
        self.write_slots_b(out);
        self.write_slots_c(out);
        proof {
            lemma_lines_between_concat(self@, 0, 13, 26);
            lemma_lines_between_concat(self@, 0, 26, 38);
            lemma_add_assoc(old(out)@, lines_between(self@, 0, 13), lines_between(self@, 13, 26));
            lemma_add_assoc(old(out)@, lines_between(self@, 0, 26), lines_between(self@, 26, 38));
            assert(out@ == old(out)@ + lines_between(self@, 0, 38));
        }
        let ghost total = spec_collection_bytes(self@);
        let ghost exts = self@.extensions;
        let mut k: usize = 0;
        proof {
            assert(exts.skip(0) =~= exts);
            lemma_add_assoc(old(out)@, lines_between(self@, 0, 38), ext_lines(exts));
        }
        while k < self.extensions.len()
            invariant
                k <= exts.len(),
                exts == self@.extensions,
                out@ + ext_lines(exts.skip(k as int)) == old(out)@ + total,
            decreases exts.len() - k,
        {
            proof {
                assert(exts.skip(k as int)[0] == exts[k as int]);
                assert(exts.skip(k as int).skip(1) =~= exts.skip(k + 1));
            }
            let ghost pre = out@;
            push_line_ext(out, self.extensions[k].0.as_slice(), self.extensions[k].1.as_slice());
            proof {
                lemma_add_assoc(
                    pre,
                    exts[k as int].0 + colon_sp() + spec_maybe_quote(exts[k as int].1) + crlf(),
                    ext_lines(exts.skip(k + 1)),
                );
                assert(out@ + ext_lines(exts.skip(k + 1)) == pre + ext_lines(exts.skip(k as int)));
            }
            k = k + 1;
        }
        proof {
            assert(exts.skip(exts.len() as int) =~= Seq::<(Seq<u8>, Seq<u8>)>::empty());
            lemma_add_empty(out@);
        }
    }
}



/// The slot a variant belongs to, in field order; the extension tag last.
pub open spec fn field_tag(h: HeaderView) -> int {
    match h {

        HeaderView::CacheControl(_) => 0,
        HeaderView::Connection(_) => 1,
        HeaderView::Date(_) => 2,
        HeaderView::Pragma(_) => 3,
        HeaderView::Trailer(_) => 4,
        HeaderView::TransferEncoding(_) => 5,
        HeaderView::Upgrade(_) => 6,
        HeaderView::Via(_) => 7,
        HeaderView::Warning(_) => 8,
        HeaderView::Accept(_) => 9,
        HeaderView::AcceptCharset(_) => 10,
        HeaderView::AcceptEncoding(_) => 11,
        HeaderView::AcceptLanguage(_) => 12,
        HeaderView::Authorization(_) => 13,
        HeaderView::Expect(_) => 14,
        HeaderView::From(_) => 15,
        HeaderView::Host(_) => 16,
        HeaderView::IfMatch(_) => 17,
        HeaderView::IfModifiedSince(_) => 18,
        HeaderView::IfNoneMatch(_) => 19,
        HeaderView::IfRange(_) => 20,
        HeaderView::IfUnmodifiedSince(_) => 21,
        HeaderView::MaxForwards(_) => 22,
        HeaderView::ProxyAuthorization(_) => 23,
        HeaderView::Range(_) => 24,
        HeaderView::Referer(_) => 25,
        HeaderView::Te(_) => 26,
        HeaderView::UserAgent(_) => 27,
        HeaderView::Allow(_) => 28,
        HeaderView::ContentEncoding(_) => 29,
        HeaderView::ContentLanguage(_) => 30,
        HeaderView::ContentLength(_) => 31,
        HeaderView::ContentLocation(_) => 32,
        HeaderView::ContentMd5(_) => 33,
        HeaderView::ContentRange(_) => 34,
        HeaderView::ContentType(_) => 35,
        HeaderView::Expires(_) => 36,
        HeaderView::LastModified(_) => 37,
        HeaderView::ExtensionHeader(_, _) => 38,
    }
}

/// Law: inserting two variants of the same known field in sequence leaves
/// the collection as if only the second had been inserted -- the last
/// write wins.
pub proof fn lemma_insert_last_wins(m: CollectionView, h1: HeaderView, h2: HeaderView)
    requires
        field_tag(h1) == field_tag(h2),
        field_tag(h1) != 38,
    ensures
        spec_insert(spec_insert(m, h1), h2) == spec_insert(m, h2),
{
    assert(spec_insert(spec_insert(m, h1), h2) =~~= spec_insert(m, h2));
}

/// Inserting the same extension key twice keeps only the second value.
pub proof fn lemma_ext_insert_overwrite(s: Seq<(Seq<u8>, Seq<u8>)>, k: Seq<u8>, v1: Seq<u8>, v2: Seq<u8>)
    requires
        ext_sorted(s),
    ensures
        ext_insert(ext_insert(s, k, v1), k, v2) == ext_insert(s, k, v2),
    decreases s.len(),
{
    lemma_lex_trichotomy(k, k);
    if s.len() == 0 {
        assert(ext_insert(ext_insert(s, k, v1), k, v2) =~= ext_insert(s, k, v2));
    } else if lex_lt(s[0].0, k) {
        let t = seq![s[0]] + ext_insert(s.skip(1), k, v1);
        assert(t[0] == s[0]);
        assert(t.skip(1) =~= ext_insert(s.skip(1), k, v1));
        assert(forall|i: int, j: int|
            0 <= i < j < s.skip(1).len() ==> lex_lt(s.skip(1)[i].0, s.skip(1)[j].0));
        lemma_ext_insert_overwrite(s.skip(1), k, v1, v2);
        assert(ext_insert(ext_insert(s, k, v1), k, v2) =~= ext_insert(s, k, v2));
    } else if s[0].0 == k {
        let t = seq![(k, v1)] + s.skip(1);
        assert(t[0] == (k, v1));
        assert(t.skip(1) =~= s.skip(1));
        assert(ext_insert(ext_insert(s, k, v1), k, v2) =~= ext_insert(s, k, v2));
    } else {
        let t = seq![(k, v1)] + s;
        assert(t[0] == (k, v1));
        assert(t.skip(1) =~= s);
        assert(ext_insert(ext_insert(s, k, v1), k, v2) =~= ext_insert(s, k, v2));
    }
}

/// Law: a collection holding only a `Host` value writes exactly one line,
/// `Host: value\r\n`, and nothing else.
#[verifier::rlimit(100)]
pub proof fn lemma_only_host_bytes(m: CollectionView, h: HostView)
    requires
        m.host == Some(h),
        m.extensions.len() == 0,

        m.cache_control is None,
        m.connection is None,
        m.date is None,
        m.pragma is None,
        m.trailer is None,
        m.transfer_encoding is None,
        m.upgrade is None,
        m.via is None,
        m.warning is None,
        m.accept is None,
        m.accept_charset is None,
        m.accept_encoding is None,
        m.accept_language is None,
        m.authorization is None,
        m.expect is None,
        m.from is None,
        m.if_match is None,
        m.if_modified_since is None,
        m.if_none_match is None,
        m.if_range is None,
        m.if_unmodified_since is None,
        m.max_forwards is None,
        m.proxy_authorization is None,
        m.range is None,
        m.referer is None,
        m.te is None,
        m.user_agent is None,
        m.allow is None,
        m.content_encoding is None,
        m.content_language is None,
        m.content_length is None,
        m.content_location is None,
        m.content_md5 is None,
        m.content_range is None,
        m.content_type is None,
        m.expires is None,
        m.last_modified is None,
    ensures
        spec_collection_bytes(m) == "Host".spec_bytes() + colon_sp() + spec_format_host(h)
            + crlf(),
{

    assert(lines_between(m, 0, 0) == Seq::<u8>::empty());
    lemma_add_empty(lines_between(m, 0, 0));
    assert(lines_between(m, 0, 1) == Seq::<u8>::empty());
    lemma_add_empty(lines_between(m, 0, 1));
    assert(lines_between(m, 0, 2) == Seq::<u8>::empty());
    lemma_add_empty(lines_between(m, 0, 2));
    assert(lines_between(m, 0, 3) == Seq::<u8>::empty());
    lemma_add_empty(lines_between(m, 0, 3));
    assert(lines_between(m, 0, 4) == Seq::<u8>::empty());
    lemma_add_empty(lines_between(m, 0, 4));
    assert(lines_between(m, 0, 5) == Seq::<u8>::empty());
    lemma_add_empty(lines_between(m, 0, 5));
    assert(lines_between(m, 0, 6) == Seq::<u8>::empty());
    lemma_add_empty(lines_between(m, 0, 6));
    assert(lines_between(m, 0, 7) == Seq::<u8>::empty());
    lemma_add_empty(lines_between(m, 0, 7));
    assert(lines_between(m, 0, 8) == Seq::<u8>::empty());
    lemma_add_empty(lines_between(m, 0, 8));
    assert(lines_between(m, 0, 9) == Seq::<u8>::empty());
    lemma_add_empty(lines_between(m, 0, 9));
    assert(lines_between(m, 0, 10) == Seq::<u8>::empty());
    lemma_add_empty(lines_between(m, 0, 10));
    assert(lines_between(m, 0, 11) == Seq::<u8>::empty());
    lemma_add_empty(lines_between(m, 0, 11));
    assert(lines_between(m, 0, 12) == Seq::<u8>::empty());
    lemma_add_empty(lines_between(m, 0, 12));
    assert(lines_between(m, 0, 13) == Seq::<u8>::empty());
    lemma_add_empty(lines_between(m, 0, 13));
    assert(lines_between(m, 0, 14) == Seq::<u8>::empty());
    lemma_add_empty(lines_between(m, 0, 14));
    assert(lines_between(m, 0, 15) == Seq::<u8>::empty());
    lemma_add_empty(lines_between(m, 0, 15));
    assert(lines_between(m, 0, 16) == Seq::<u8>::empty());
    lemma_empty_add(nth_line(m, 16));
    assert(lines_between(m, 0, 17) == "Host".spec_bytes() + colon_sp() + spec_format_host(h) + crlf());
    lemma_add_empty(lines_between(m, 0, 17));
    assert(lines_between(m, 0, 18) == lines_between(m, 0, 17));
    lemma_add_empty(lines_between(m, 0, 18));
    assert(lines_between(m, 0, 19) == lines_between(m, 0, 18));
    lemma_add_empty(lines_between(m, 0, 19));
    assert(lines_between(m, 0, 20) == lines_between(m, 0, 19));
    lemma_add_empty(lines_between(m, 0, 20));
    assert(lines_between(m, 0, 21) == lines_between(m, 0, 20));
    lemma_add_empty(lines_between(m, 0, 21));
    assert(lines_between(m, 0, 22) == lines_between(m, 0, 21));
    lemma_add_empty(lines_between(m, 0, 22));
    assert(lines_between(m, 0, 23) == lines_between(m, 0, 22));
    lemma_add_empty(lines_between(m, 0, 23));
    assert(lines_between(m, 0, 24) == lines_between(m, 0, 23));
    lemma_add_empty(lines_between(m, 0, 24));
    assert(lines_between(m, 0, 25) == lines_between(m, 0, 24));
    lemma_add_empty(lines_between(m, 0, 25));
    assert(lines_between(m, 0, 26) == lines_between(m, 0, 25));
    lemma_add_empty(lines_between(m, 0, 26));
    assert(lines_between(m, 0, 27) == lines_between(m, 0, 26));
    lemma_add_empty(lines_between(m, 0, 27));
    assert(lines_between(m, 0, 28) == lines_between(m, 0, 27));
    lemma_add_empty(lines_between(m, 0, 28));
    assert(lines_between(m, 0, 29) == lines_between(m, 0, 28));
    lemma_add_empty(lines_between(m, 0, 29));
    assert(lines_between(m, 0, 30) == lines_between(m, 0, 29));
    lemma_add_empty(lines_between(m, 0, 30));
    assert(lines_between(m, 0, 31) == lines_between(m, 0, 30));
    lemma_add_empty(lines_between(m, 0, 31));
    assert(lines_between(m, 0, 32) == lines_between(m, 0, 31));
    lemma_add_empty(lines_between(m, 0, 32));
    assert(lines_between(m, 0, 33) == lines_between(m, 0, 32));
    lemma_add_empty(lines_between(m, 0, 33));
    assert(lines_between(m, 0, 34) == lines_between(m, 0, 33));
    lemma_add_empty(lines_between(m, 0, 34));
    assert(lines_between(m, 0, 35) == lines_between(m, 0, 34));
    lemma_add_empty(lines_between(m, 0, 35));
    assert(lines_between(m, 0, 36) == lines_between(m, 0, 35));
    lemma_add_empty(lines_between(m, 0, 36));
    assert(lines_between(m, 0, 37) == lines_between(m, 0, 36));
    lemma_add_empty(lines_between(m, 0, 37));
    assert(lines_between(m, 0, 38) == lines_between(m, 0, 37));
    assert(m.extensions =~= Seq::<(Seq<u8>, Seq<u8>)>::empty());
    lemma_add_empty(lines_between(m, 0, 38));
}

/// The empty sequence is a left identity of concatenation.
proof fn lemma_empty_add(a: Seq<u8>)
    ensures
        Seq::<u8>::empty() + a == a,
{
    assert(Seq::<u8>::empty() + a =~= a);
}


} // verus!
