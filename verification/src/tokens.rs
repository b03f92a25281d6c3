//! The structured list values: comma-joined token lists (`Connection`,
//! `Allow`) and the `host[:port]` pair (`Host`).
use vstd::prelude::*;

use crate::num::{parse_uint, push_uint, spec_digits, spec_parse_uint};
use crate::util::{is_token_byte, push_bytes, push_str_bytes, token_byte, COLON, COMMA, HT, SP};

verus! {

use vstd::string::StringSliceAdditionalSpecFns;

/// A non-empty word of token bytes.
pub open spec fn wf_token(t: Seq<u8>) -> bool {
    t.len() > 0 && forall|i: int| 0 <= i < t.len() ==> is_token_byte(#[trigger] t[i])
}

/// A non-empty list of well-formed tokens.
pub open spec fn wf_tokens(ts: Seq<Seq<u8>>) -> bool {
    ts.len() > 0 && forall|i: int| 0 <= i < ts.len() ==> wf_token(#[trigger] ts[i])
}

/// The wire form of a token list: the tokens joined by `", "`.
pub open spec fn spec_join_tokens(ts: Seq<Seq<u8>>) -> Seq<u8>
    decreases ts.len(),
{
    if ts.len() == 0 {
        Seq::empty()
    } else if ts.len() == 1 {
        ts[0]
    } else {
        ts[0] + seq![COMMA, SP] + spec_join_tokens(ts.skip(1))
    }
}

/// Splits a value at every comma, `cur` holding the bytes of the piece
/// under way.
pub open spec fn split_commas(s: Seq<u8>, cur: Seq<u8>) -> Seq<Seq<u8>>
    decreases s.len(),
{
    if s.len() == 0 {
        seq![cur]
    } else if s[0] == COMMA {
        seq![cur] + split_commas(s.skip(1), Seq::empty())
    } else {
        split_commas(s.skip(1), cur.push(s[0]))
    }
}

/// Whether a byte is linear whitespace inside a value.
pub open spec fn is_ws(b: u8) -> bool {
    b == SP || b == HT
}

/// Drops leading whitespace.
pub open spec fn trim_front(t: Seq<u8>) -> Seq<u8>
    decreases t.len(),
{
    if t.len() > 0 && is_ws(t[0]) {
        trim_front(t.skip(1))
    } else {
        t
    }
}

/// Drops trailing whitespace.
pub open spec fn trim_back(t: Seq<u8>) -> Seq<u8>
    decreases t.len(),
{
    if t.len() > 0 && is_ws(t[t.len() - 1]) {
        trim_back(t.take(t.len() - 1))
    } else {
        t
    }
}

/// Drops whitespace from both ends.
pub open spec fn spec_trim(t: Seq<u8>) -> Seq<u8> {
    trim_back(trim_front(t))
}

/// What parsing a token list yields: the comma-separated pieces, each
/// trimmed of surrounding whitespace, when every piece is then a token;
/// nothing otherwise.
pub open spec fn spec_parse_tokens(s: Seq<u8>) -> Option<Seq<Seq<u8>>> {
    let ps = split_commas(s, Seq::empty()).map_values(|t: Seq<u8>| spec_trim(t));
    if wf_tokens(ps) {
        Some(ps)
    } else {
        None
    }
}

/// The sequence of byte sequences a vector of byte vectors stands for.
pub open spec fn seqs_view(v: Seq<Vec<u8>>) -> Seq<Seq<u8>> {
    v.map_values(|x: Vec<u8>| x@)
}

/// Appends the tokens from position `i` on, joined by `", "`.
fn push_tokens_from(out: &mut Vec<u8>, ts: &Vec<Vec<u8>>, i: usize)
    requires
        i < ts@.len(),
    ensures
        final(out)@ == old(out)@ + spec_join_tokens(seqs_view(ts@).skip(i as int)),
    decreases ts@.len() - i,
{
    push_bytes(out, ts[i].as_slice());
    if i < ts.len() - 1 {
        push_str_bytes(out, ", ");
        push_tokens_from(out, ts, i + 1);
        proof {
            let v = seqs_view(ts@);
            assert(", ".spec_bytes() =~= seq![COMMA, SP]) by {
                reveal_strlit(", ");
                broadcast use vstd::string::is_ascii_spec_bytes;

                assert(vstd::string::is_ascii(", "));
            }
            assert(v.skip(i as int)[0] == ts@[i as int]@);
            assert(v.skip(i as int).skip(1) =~= v.skip(i + 1));
            assert(out@ =~= old(out)@ + (v.skip(i as int)[0] + seq![COMMA, SP] + spec_join_tokens(
                v.skip(i as int).skip(1),
            )));
        }
    } else {
        proof {
            let v = seqs_view(ts@);
            assert(v.skip(i as int).len() == 1);
            assert(v.skip(i as int)[0] == ts@[i as int]@);
            assert(out@ =~= old(out)@ + v.skip(i as int)[0]);
        }
    }
}

/// Appends the wire form of a token list to a byte sink.
pub fn push_token_list(out: &mut Vec<u8>, ts: &Vec<Vec<u8>>)
    requires
        ts@.len() > 0,
    ensures
        final(out)@ == old(out)@ + spec_join_tokens(seqs_view(ts@)),
{
    push_tokens_from(out, ts, 0);
    proof {
        assert(seqs_view(ts@).skip(0) =~= seqs_view(ts@));
    }
}

/// Trims surrounding whitespace from a piece.
fn trim(v: &[u8]) -> (r: Vec<u8>)
    ensures
        r@ == spec_trim(v@),
{
    let mut a: usize = 0;
    proof {
        assert(v@.skip(0) =~= v@);
    }
    while a < v.len() && (v[a] == SP || v[a] == HT)
        invariant
            a <= v@.len(),
            trim_front(v@) == trim_front(v@.skip(a as int)),
        decreases v@.len() - a,
    {
        proof {
            assert(v@.skip(a as int)[0] == v@[a as int]);
            assert(v@.skip(a as int).skip(1) =~= v@.skip(a + 1));
        }
        a = a + 1;
    }
    proof {
        if a < v@.len() {
            assert(trim_front(v@.skip(a as int)) == v@.skip(a as int));
        } else {
            assert(v@.skip(a as int) =~= Seq::<u8>::empty());
        }
    }
    let mut b: usize = v.len();
    let ghost f = trim_front(v@);
    proof {
        assert(f == v@.skip(a as int));
        assert(v@.skip(a as int).len() == v@.len() - a);
        assert(f.take(b - a) =~= f);
    }
    while b > a && (v[b - 1] == SP || v[b - 1] == HT)
        invariant
            a <= b <= v@.len(),
            f == v@.skip(a as int),
            trim_back(f) == trim_back(f.take(b - a)),
        decreases b,
    {
        proof {
            let t = f.take(b - a);
            assert(t[t.len() - 1] == v@[b - 1]);
            assert(t.take(t.len() - 1) =~= f.take(b - 1 - a));
        }
        b = b - 1;
    }
    proof {
        let t = f.take(b - a);
        if b > a {
            assert(t[t.len() - 1] == v@[b - 1]);
            assert(trim_back(t) == t);
        } else {
            assert(t =~= Seq::<u8>::empty());
            assert(trim_back(t) == t);
        }
    }
    let mut r: Vec<u8> = Vec::new();
    let mut i: usize = a;
    while i < b
        invariant
            a <= i <= b <= v@.len(),
            r@ == v@.subrange(a as int, i as int),
        decreases b - i,
    {
        r.push(v[i]);
        proof {
            assert(v@.subrange(a as int, i + 1) =~= v@.subrange(a as int, i as int).push(
                v@[i as int],
            ));
        }
        i = i + 1;
    }
    proof {
        assert(r@ =~= trim_front(v@).take(b - a));
    }
    r
}

/// Parses a comma-separated token list, returning `None` when any trimmed
/// piece is empty or holds a byte outside the token alphabet.
pub fn parse_token_list(s: &[u8]) -> (r: Option<Vec<Vec<u8>>>)
    ensures
        match r {
            Some(v) => spec_parse_tokens(s@) == Some(seqs_view(v@)),
            None => spec_parse_tokens(s@) is None,
        },
{
    let mut pieces: Vec<Vec<u8>> = Vec::new();
    let mut cur: Vec<u8> = Vec::new();
    let mut i: usize = 0;
    proof {
        assert(s@.skip(0) =~= s@);
    }
    while i < s.len()
        invariant
            i <= s@.len(),
            split_commas(s@, Seq::empty()) == seqs_view(pieces@) + split_commas(
                s@.skip(i as int),
                cur@,
            ),
        decreases s@.len() - i,
    {
        proof {
            assert(s@.skip(i as int)[0] == s@[i as int]);
            assert(s@.skip(i as int).skip(1) =~= s@.skip(i + 1));
        }
        if s[i] == COMMA {
            let ghost before = seqs_view(pieces@);
            pieces.push(cur);
            cur = Vec::new();
            proof {
                assert(seqs_view(pieces@) =~= before + seq![pieces@[pieces@.len() - 1]@]);
                assert(seqs_view(pieces@) + split_commas(s@.skip(i + 1), cur@) =~= before + (seq![
                    pieces@[pieces@.len() - 1]@,
                ] + split_commas(s@.skip(i + 1), Seq::empty())));
            }
        } else {
            cur.push(s[i]);
        }
        i = i + 1;
    }
    proof {
        assert(s@.skip(s@.len() as int) =~= Seq::<u8>::empty());
    }
    let ghost before = seqs_view(pieces@);
    pieces.push(cur);
    proof {
        assert(seqs_view(pieces@) =~= before + seq![pieces@[pieces@.len() - 1]@]);
        assert(split_commas(s@, Seq::empty()) == seqs_view(pieces@));
    }
    // trim each piece, and reject any that is not a bare token
    let mut out: Vec<Vec<u8>> = Vec::new();
    let mut k: usize = 0;
    let ghost ps = split_commas(s@, Seq::empty()).map_values(|t: Seq<u8>| spec_trim(t));
    while k < pieces.len()
        invariant
            k <= pieces@.len(),
            ps == split_commas(s@, Seq::empty()).map_values(|t: Seq<u8>| spec_trim(t)),
            split_commas(s@, Seq::empty()) == seqs_view(pieces@),
            out@.len() == k,
            forall|j: int| 0 <= j < k ==> seqs_view(out@)[j] == ps[j],
            forall|j: int| 0 <= j < k ==> wf_token(#[trigger] ps[j]),
        decreases pieces@.len() - k,
    {
        let t = trim(pieces[k].as_slice());
        let mut ok: bool = t.len() > 0;
        let mut j: usize = 0;
        while j < t.len()
            invariant
                j <= t@.len(),
                ok == (t@.len() > 0 && forall|x: int| 0 <= x < j ==> is_token_byte(
                    #[trigger] t@[x],
                )),
            decreases t@.len() - j,
        {
            if !token_byte(t[j]) {
                ok = false;
            }
            j = j + 1;
        }
        if !ok {
            proof {
                assert(ps[k as int] == spec_trim(pieces@[k as int]@));
                assert(!wf_token(ps[k as int]));
            }
            return None;
        }
        out.push(t);
        k = k + 1;
    }
    proof {
        assert(seqs_view(out@) =~= ps);
        assert(wf_tokens(ps));
    }
    Some(out)
}

/// Splitting takes a comma-free prefix into the piece under way.
proof fn lemma_split_nocomma(a: Seq<u8>, b: Seq<u8>, cur: Seq<u8>)
    requires
        forall|i: int| 0 <= i < a.len() ==> a[i] != COMMA,
    ensures
        split_commas(a + b, cur) == split_commas(b, cur + a),
    decreases a.len(),
{
    if a.len() == 0 {
        assert(a + b =~= b);
        assert(cur + a =~= cur);
    } else {
        assert((a + b)[0] == a[0]);
        lemma_split_nocomma(a.skip(1), b, cur.push(a[0]));
        assert((a + b).skip(1) =~= a.skip(1) + b);
        assert(cur.push(a[0]) + a.skip(1) =~= cur + a);
    }
}

/// Trimming a piece of whitespace followed by a token leaves the token.
proof fn lemma_trim_ws_token(p: Seq<u8>, t: Seq<u8>)
    requires
        forall|i: int| 0 <= i < p.len() ==> is_ws(#[trigger] p[i]),
        wf_token(t),
    ensures
        spec_trim(p + t) == t,
    decreases p.len(),
{
    if p.len() == 0 {
        assert(p + t =~= t);
        assert(trim_front(t) == t);
        assert(trim_back(t) == t);
    } else {
        assert((p + t)[0] == p[0]);
        assert((p + t).skip(1) =~= p.skip(1) + t);
        lemma_trim_ws_token(p.skip(1), t);
        assert(trim_front(p + t) == trim_front(p.skip(1) + t));
        assert(trim_front(p.skip(1) + t) == trim_front(t)) by {
            assert(spec_trim(p.skip(1) + t) == t);
            lemma_trim_front_ws(p.skip(1), t);
        }
        assert(trim_front(t) == t);
        assert(trim_back(t) == t);
    }
}

/// The leading-whitespace trim alone already reaches the token.
proof fn lemma_trim_front_ws(p: Seq<u8>, t: Seq<u8>)
    requires
        forall|i: int| 0 <= i < p.len() ==> is_ws(#[trigger] p[i]),
        wf_token(t),
    ensures
        trim_front(p + t) == t,
    decreases p.len(),
{
    if p.len() == 0 {
        assert(p + t =~= t);
    } else {
        assert((p + t)[0] == p[0]);
        assert((p + t).skip(1) =~= p.skip(1) + t);
        lemma_trim_front_ws(p.skip(1), t);
    }
}

/// Splitting the joined form after a whitespace-only prefix recovers the
/// token list.
proof fn lemma_join_split(ts: Seq<Seq<u8>>, p: Seq<u8>)
    requires
        wf_tokens(ts),
        forall|i: int| 0 <= i < p.len() ==> is_ws(#[trigger] p[i]),
    ensures
        split_commas(spec_join_tokens(ts), p).map_values(|t: Seq<u8>| spec_trim(t)) == ts,
    decreases ts.len(),
{
    if ts.len() == 1 {
        lemma_split_nocomma(ts[0], Seq::empty(), p);
        assert(ts[0] + Seq::<u8>::empty() =~= ts[0]);
        assert(split_commas(Seq::empty(), p + ts[0]) == seq![p + ts[0]]);
        lemma_trim_ws_token(p, ts[0]);
        assert(split_commas(spec_join_tokens(ts), p).map_values(|t: Seq<u8>| spec_trim(t)) =~= ts);
    } else {
        let rest = ts.skip(1);
        let tail = seq![COMMA, SP] + spec_join_tokens(rest);
        assert(spec_join_tokens(ts) =~= ts[0] + tail);
        lemma_split_nocomma(ts[0], tail, p);
        assert(tail[0] == COMMA);
        assert(tail.skip(1) =~= seq![SP] + spec_join_tokens(rest));
        assert(split_commas(tail, p + ts[0]) == seq![p + ts[0]] + split_commas(
            seq![SP] + spec_join_tokens(rest),
            Seq::empty(),
        ));
        lemma_split_nocomma(seq![SP], spec_join_tokens(rest), Seq::empty());
        assert(Seq::<u8>::empty() + seq![SP] =~= seq![SP]);
        assert(forall|i: int| 0 <= i < rest.len() ==> wf_token(#[trigger] rest[i]));
        lemma_join_split(rest, seq![SP]);
        lemma_trim_ws_token(p, ts[0]);
        let split_rest = split_commas(spec_join_tokens(rest), seq![SP]);
        assert(split_commas(spec_join_tokens(ts), p) == seq![p + ts[0]] + split_rest);
        assert((seq![p + ts[0]] + split_rest).map_values(|t: Seq<u8>| spec_trim(t)) =~= seq![
            ts[0],
        ] + split_rest.map_values(|t: Seq<u8>| spec_trim(t)));
        assert(seq![ts[0]] + rest =~= ts);
    }
}

/// Law: parsing the joined form of a well-formed token list returns it.
pub proof fn lemma_tokens_roundtrip(ts: Seq<Seq<u8>>)
    requires
        wf_tokens(ts),
    ensures
        spec_parse_tokens(spec_join_tokens(ts)) == Some(ts),
{
    lemma_join_split(ts, Seq::empty());
}

/// A host value: a name and an optional decimal port.
#[derive(Clone, Debug, PartialEq, Eq)]
pub struct Host {
    pub name: Vec<u8>,
    pub port: Option<u16>,
}

/// The spec-level shape of a host value.
pub ghost struct HostView {
    pub name: Seq<u8>,
    pub port: Option<u16>,
}

impl View for Host {
    type V = HostView;

    open spec fn view(&self) -> HostView {
        HostView { name: self.name@, port: self.port }
    }
}

/// A serializable host: a non-empty name free of colons.
pub open spec fn wf_host(h: HostView) -> bool {
    h.name.len() > 0 && forall|i: int| 0 <= i < h.name.len() ==> #[trigger] h.name[i] != COLON
}

/// The wire form of a host value: the name, then `:` and the decimal port
/// when one is present.
pub open spec fn spec_format_host(h: HostView) -> Seq<u8> {
    match h.port {
        Some(p) => h.name + seq![COLON] + spec_digits(p as nat),
        None => h.name,
    }
}

/// The bytes before the first colon, and those after it if there is one.
pub open spec fn split_colon(s: Seq<u8>) -> (Seq<u8>, Option<Seq<u8>>)
    decreases s.len(),
{
    if s.len() == 0 {
        (Seq::empty(), None)
    } else if s[0] == COLON {
        (Seq::empty(), Some(s.skip(1)))
    } else {
        let (a, b) = split_colon(s.skip(1));
        (seq![s[0]] + a, b)
    }
}

/// What parsing a host value yields: the name before the first colon, which
/// must be non-empty, and the decimal port after it, which must be a number
/// of at most 65535; nothing otherwise.
pub open spec fn spec_parse_host(s: Seq<u8>) -> Option<HostView> {
    let (name, rest) = split_colon(s);
    if name.len() == 0 {
        None
    } else {
        match rest {
            None => Some(HostView { name, port: None }),
            Some(p) => match spec_parse_uint(p, 65535) {
                Some(v) => Some(HostView { name, port: Some(v as u16) }),
                None => None,
            },
        }
    }
}

/// Appends the wire form of a host value to a byte sink.
pub fn push_host(out: &mut Vec<u8>, h: &Host)
    ensures
        final(out)@ == old(out)@ + spec_format_host(h@),
{
    push_bytes(out, h.name.as_slice());
    match h.port {
        Some(p) => {
            out.push(COLON);
            push_uint(out, p as usize);
            proof {
                assert(out@ =~= old(out)@ + (h@.name + seq![COLON] + spec_digits(p as nat)));
            }
        },
        None => {},
    }
}

/// Splitting at the first colon takes a colon-free prefix whole.
proof fn lemma_split_colon_at(s: Seq<u8>, i: int)
    requires
        0 <= i <= s.len(),
        forall|j: int| 0 <= j < i ==> s[j] != COLON,
        i < s.len() ==> s[i] == COLON,
    ensures
        split_colon(s) == (
            s.take(i),
            if i < s.len() {
                Some(s.skip(i + 1))
            } else {
                None::<Seq<u8>>
            },
        ),
    decreases i,
{
    if i == 0 {
        assert(s.take(0) =~= Seq::<u8>::empty());
    } else {
        lemma_split_colon_at(s.skip(1), i - 1);
        assert(s.skip(1).take(i - 1) =~= s.take(i).skip(1));
        assert(seq![s[0]] + s.take(i).skip(1) =~= s.take(i));
        if i < s.len() {
            assert(s.skip(1).skip(i - 1 + 1) =~= s.skip(i + 1));
        }
    }
}

/// Parses a host value, returning `None` on an empty name or a bad port.
pub fn parse_host(s: &[u8]) -> (r: Option<Host>)
    ensures
        match r {
            Some(h) => spec_parse_host(s@) == Some(h@),
            None => spec_parse_host(s@) is None,
        },
{
    let mut c: usize = 0;
    while c < s.len() && s[c] != COLON
        invariant
            c <= s@.len(),
            forall|j: int| 0 <= j < c ==> s@[j] != COLON,
        decreases s@.len() - c,
    {
        c = c + 1;
    }
    proof {
        lemma_split_colon_at(s@, c as int);
    }
    if c == 0 {
        return None;
    }
    let mut name: Vec<u8> = Vec::new();
    let mut i: usize = 0;
    while i < c
        invariant
            i <= c <= s@.len(),
            name@ == s@.subrange(0, i as int),
        decreases c - i,
    {
        name.push(s[i]);
        proof {
            assert(s@.subrange(0, i + 1) =~= s@.subrange(0, i as int).push(s@[i as int]));
        }
        i = i + 1;
    }
    if c == s.len() {
        return Some(Host { name, port: None });
    }
    let mut tail: Vec<u8> = Vec::new();
    let mut j: usize = c + 1;
    while j < s.len()
        invariant
            c + 1 <= j <= s@.len(),
            tail@ == s@.subrange(c + 1, j as int),
        decreases s@.len() - j,
    {
        tail.push(s[j]);
        proof {
            assert(s@.subrange(c + 1, j + 1) =~= s@.subrange(c + 1, j as int).push(s@[j as int]));
        }
        j = j + 1;
    }
    proof {
        assert(tail@ =~= s@.skip(c + 1));
    }
    match parse_uint(tail.as_slice(), 65535) {
        Some(v) => Some(Host { name, port: Some(v as u16) }),
        None => None,
    }
}

/// Law: parsing the wire form of a well-formed host value returns it.
pub proof fn lemma_host_roundtrip(h: HostView)
    requires
        wf_host(h),
    ensures
        spec_parse_host(spec_format_host(h)) == Some(h),
{
    let s = spec_format_host(h);
    let nl = h.name.len() as int;
    match h.port {
        None => {
            lemma_split_colon_at(s, nl);
            assert(s.take(nl) =~= h.name);
        },
        Some(p) => {
            assert(forall|j: int| 0 <= j < nl ==> s[j] == #[trigger] h.name[j]);
            assert(s[nl] == COLON);
            lemma_split_colon_at(s, nl);
            assert(s.take(nl) =~= h.name);
            assert(s.skip(nl + 1) =~= spec_digits(p as nat));
            crate::num::lemma_uint_roundtrip(p as nat, 65535);
        },
    }
}

} // verus!
