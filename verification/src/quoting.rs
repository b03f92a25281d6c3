//! The RFC 2616 quoted-string utilities: wrap a value in double quotes with
//! backslash escaping when it contains bytes outside the token alphabet, and
//! undo that quoting permissively when reading a value back.
use vstd::prelude::*;

use crate::util::{bytes_eq, is_token_byte, push_bytes, token_byte, BACKSLASH, QUOTE};

verus! {

/// Whether a value needs the quoted-string form: some byte of it is not a
/// bare token byte.
pub open spec fn needs_quoting(s: Seq<u8>) -> bool {
    exists|i: int| 0 <= i < s.len() && !is_token_byte(s[i])
}

/// The escaped body of a quoted string: each `"` and `\` preceded by a
/// backslash, every other byte kept as it is.
pub open spec fn escape(s: Seq<u8>) -> Seq<u8>
    decreases s.len(),
{
    if s.len() == 0 {
        Seq::empty()
    } else if s[0] == QUOTE || s[0] == BACKSLASH {
        seq![BACKSLASH, s[0]] + escape(s.skip(1))
    } else {
        seq![s[0]] + escape(s.skip(1))
    }
}

/// What writing a value emits: the value itself when every byte is a token
/// byte, otherwise the value escaped and wrapped in double quotes.
pub open spec fn spec_maybe_quote(s: Seq<u8>) -> Seq<u8> {
    if needs_quoting(s) {
        seq![QUOTE] + escape(s) + seq![QUOTE]
    } else {
        s
    }
}

/// Resolves the escapes of a quoted-string body. `None` marks a malformed
/// body: a backslash with nothing after it, or a bare double quote.
pub open spec fn unescape(s: Seq<u8>) -> Option<Seq<u8>>
    decreases s.len(),
{
    if s.len() == 0 {
        Some(Seq::empty())
    } else if s[0] == BACKSLASH {
        if s.len() == 1 {
            None
        } else {
            match unescape(s.skip(2)) {
                Some(r) => Some(seq![s[1]] + r),
                None => None,
            }
        }
    } else if s[0] == QUOTE {
        None
    } else {
        match unescape(s.skip(1)) {
            Some(r) => Some(seq![s[0]] + r),
            None => None,
        }
    }
}

/// What reading a value yields: a well-formed quoted string is stripped of
/// its quotes and unescaped; anything else is kept verbatim.
pub open spec fn spec_maybe_unquote(s: Seq<u8>) -> Seq<u8> {
    if s.len() >= 2 && s[0] == QUOTE && s[s.len() - 1] == QUOTE && unescape(
        s.subrange(1, s.len() - 1),
    ) is Some {
        unescape(s.subrange(1, s.len() - 1)).unwrap()
    } else {
        s
    }
}

/// Serializes a free-text value: verbatim when it is a bare token, in
/// quoted-string form otherwise.
pub fn maybe_quote(s: &[u8]) -> (r: Vec<u8>)
    ensures
        r@ == spec_maybe_quote(s@),
{
    let mut quoted: bool = false;
    let mut i: usize = 0;
    while i < s.len()
        invariant
            i <= s@.len(),
            quoted == exists|j: int| 0 <= j < i && !is_token_byte(s@[j]),
        decreases s@.len() - i,
    {
        if !token_byte(s[i]) {
            quoted = true;
        }
        i = i + 1;
    }
    let mut out: Vec<u8> = Vec::new();
    if !quoted {
        push_bytes(&mut out, s);
        assert(out@ =~= s@);
        return out;
    }
    out.push(QUOTE);
    let mut i: usize = 0;
    while i < s.len()
        invariant
            i <= s@.len(),
            out@ == seq![QUOTE] + escape(s@.subrange(0, i as int)),
        decreases s@.len() - i,
    {
        proof {
            lemma_escape_snoc(s@.subrange(0, i as int), s@[i as int]);
            assert(s@.subrange(0, i + 1) =~= s@.subrange(0, i as int).push(s@[i as int]));
        }
        let b = s[i];
        if b == QUOTE || b == BACKSLASH {
            out.push(BACKSLASH);
            out.push(b);
        } else {
            out.push(b);
        }
        proof {
            assert(out@ =~= seq![QUOTE] + escape(s@.subrange(0, i + 1)));
        }
        i = i + 1;
    }
    out.push(QUOTE);
    proof {
        assert(s@.subrange(0, s@.len() as int) =~= s@);
        assert(out@ =~= seq![QUOTE] + escape(s@) + seq![QUOTE]);
    }
    out
}

/// Appending one byte to a value appends its escaped form to the escaped body.
proof fn lemma_escape_snoc(s: Seq<u8>, c: u8)
    ensures
        escape(s.push(c)) == escape(s) + (if c == QUOTE || c == BACKSLASH {
            seq![BACKSLASH, c]
        } else {
            seq![c]
        }),
    decreases s.len(),
{
    let e = if c == QUOTE || c == BACKSLASH {
        seq![BACKSLASH, c]
    } else {
        seq![c]
    };
    if s.len() == 0 {
        assert(s.push(c).skip(1) =~= Seq::<u8>::empty());
        assert(escape(Seq::<u8>::empty()) == Seq::<u8>::empty());
        assert(escape(s.push(c)) =~= escape(s) + e);
    } else {
        lemma_escape_snoc(s.skip(1), c);
        assert(s.push(c).skip(1) =~= s.skip(1).push(c));
        assert(s.push(c)[0] == s[0]);
        if s[0] == QUOTE || s[0] == BACKSLASH {
            assert(escape(s.push(c)) == seq![BACKSLASH, s[0]] + (escape(s.skip(1)) + e));
            assert(seq![BACKSLASH, s[0]] + (escape(s.skip(1)) + e) =~= (seq![BACKSLASH, s[0]]
                + escape(s.skip(1))) + e);
        } else {
            assert(escape(s.push(c)) == seq![s[0]] + (escape(s.skip(1)) + e));
            assert(seq![s[0]] + (escape(s.skip(1)) + e) =~= (seq![s[0]] + escape(s.skip(1))) + e);
        }
    }
}

/// Deserializes a free-text value, undoing [`maybe_quote`]. Malformed quoting
/// falls back to the verbatim bytes.
pub fn maybe_unquote(s: &[u8]) -> (r: Vec<u8>)
    ensures
        r@ == spec_maybe_unquote(s@),
{
    if s.len() < 2 || s[0] != QUOTE || s[s.len() - 1] != QUOTE {
        let mut out: Vec<u8> = Vec::new();
        push_bytes(&mut out, s);
        assert(out@ =~= s@);
        return out;
    }
    let ghost mid = s@.subrange(1, s@.len() - 1);
    let mut out: Vec<u8> = Vec::new();
    let mut i: usize = 1;
    let end: usize = s.len() - 1;
    proof {
        assert(mid.skip(0) =~= mid);
        if unescape(mid) is Some {
            assert(Seq::<u8>::empty() + unescape(mid).unwrap() =~= unescape(mid).unwrap());
        }
    }
    while i < end
        invariant
            1 <= i <= end,
            end == s@.len() - 1,
            s@.len() >= 2,
            mid == s@.subrange(1, s@.len() - 1),
            unescape(mid) == match unescape(mid.skip(i - 1)) {
                Some(rest) => Some(out@ + rest),
                None => None::<Seq<u8>>,
            },
        decreases end - i,
    {
        proof {
            assert(mid.skip(i - 1).len() == end - i);
            assert(mid.skip(i - 1)[0] == s@[i as int]);
        }
        let b = s[i];
        if b == BACKSLASH {
            if i + 1 == end {
                // a trailing backslash: the body is malformed, keep the
                // value verbatim
                proof {
                    assert(unescape(mid.skip(i - 1)) is None);
                }
                let mut lit: Vec<u8> = Vec::new();
                push_bytes(&mut lit, s);
                assert(lit@ =~= s@);
                return lit;
            }
            proof {
                assert(mid.skip(i - 1)[1] == s@[i + 1]);
                assert(mid.skip(i - 1).skip(2) =~= mid.skip(i + 1));
            }
            let ghost prev = out@;
            out.push(s[i + 1]);
            proof {
                if unescape(mid.skip(i + 1)) is Some {
                    assert(out@ + unescape(mid.skip(i + 1)).unwrap() =~= prev + (seq![
                        s@[i + 1],
                    ] + unescape(mid.skip(i + 1)).unwrap()));
                }
            }
            i = i + 2;
        } else if b == QUOTE {
            // a bare quote inside the body: malformed, keep the value verbatim
            proof {
                assert(unescape(mid.skip(i - 1)) is None);
            }
            let mut lit: Vec<u8> = Vec::new();
            push_bytes(&mut lit, s);
            assert(lit@ =~= s@);
            return lit;
        } else {
            proof {
                assert(mid.skip(i - 1).skip(1) =~= mid.skip(i as int));
            }
            let ghost prev = out@;
            out.push(b);
            proof {
                if unescape(mid.skip(i as int)) is Some {
                    assert(out@ + unescape(mid.skip(i as int)).unwrap() =~= prev + (seq![
                        s@[i as int],
                    ] + unescape(mid.skip(i as int)).unwrap()));
                }
            }
            i = i + 1;
        }
    }
    proof {
        assert(mid.skip(i - 1) =~= Seq::<u8>::empty());
        assert(unescape(mid) == Some(out@));
    }
    out
}

/// Law: reading back a written value returns it unchanged, whatever bytes it
/// holds.
pub proof fn lemma_quote_roundtrip(s: Seq<u8>)
    ensures
        spec_maybe_unquote(spec_maybe_quote(s)) == s,
{
    if needs_quoting(s) {
        let q = seq![QUOTE] + escape(s) + seq![QUOTE];
        assert(q[0] == QUOTE);
        assert(q[q.len() - 1] == QUOTE);
        assert(q.subrange(1, q.len() - 1) =~= escape(s));
        lemma_unescape_escape(s);
    } else {
        assert(forall|i: int| 0 <= i < s.len() ==> is_token_byte(#[trigger] s[i]));
        if s.len() >= 2 && s[0] == QUOTE {
            assert(!is_token_byte(s[0]));
        }
    }
}

/// Unescaping inverts escaping.
proof fn lemma_unescape_escape(s: Seq<u8>)
    ensures
        unescape(escape(s)) == Some(s),
    decreases s.len(),
{
    if s.len() == 0 {
        assert(s =~= Seq::<u8>::empty());
    } else {
        lemma_unescape_escape(s.skip(1));
        if s[0] == QUOTE || s[0] == BACKSLASH {
            let e = seq![BACKSLASH, s[0]] + escape(s.skip(1));
            assert(e[0] == BACKSLASH);
            assert(e.len() >= 2);
            assert(e[1] == s[0]);
            assert(e.skip(2) =~= escape(s.skip(1)));
            assert(seq![s[0]] + s.skip(1) =~= s);
        } else {
            let e = seq![s[0]] + escape(s.skip(1));
            assert(e[0] == s[0]);
            assert(e[0] != BACKSLASH && e[0] != QUOTE);
            assert(e.skip(1) =~= escape(s.skip(1)));
            assert(seq![s[0]] + s.skip(1) =~= s);
        }
    }
}

} // verus!
