//! Byte-level helpers shared by the codec: the RFC 2616 token alphabet,
//! appending to byte sinks, byte-sequence equality and lexicographic order.
use vstd::prelude::*;

verus! {

use vstd::string::StringSliceAdditionalSpecFns;

/// Horizontal tab.
pub const HT: u8 = 9;
/// Space.
pub const SP: u8 = 32;
/// Double quote.
pub const QUOTE: u8 = 34;
/// Comma.
pub const COMMA: u8 = 44;
/// Colon.
pub const COLON: u8 = 58;
/// Backslash.
pub const BACKSLASH: u8 = 92;

/// The RFC 2616 separators, which a bare token may not contain.
pub open spec fn is_separator_byte(b: u8) -> bool {
    b == 40 || b == 41 || b == 60 || b == 62 || b == 64  // ( ) < > @
    || b == 44 || b == 59 || b == 58 || b == 92 || b == 34  // , ; : \ "
    || b == 47 || b == 91 || b == 93 || b == 63 || b == 61  // / [ ] ? =
    || b == 123 || b == 125 || b == SP || b == HT  // { }
}

/// A byte that may stand in an unquoted token: printable ASCII that is
/// neither a control character nor a separator.
pub open spec fn is_token_byte(b: u8) -> bool {
    31 < b && b < 127 && !is_separator_byte(b)
}

/// Runtime test for [`is_token_byte`].
pub fn token_byte(b: u8) -> (r: bool)
    ensures
        r == is_token_byte(b),
{
    31 < b && b < 127 && !(b == 40 || b == 41 || b == 60 || b == 62 || b == 64 || b == 44 || b == 59
        || b == 58 || b == 92 || b == 34 || b == 47 || b == 91 || b == 93 || b == 63 || b == 61
        || b == 123 || b == 125 || b == SP || b == HT)
}

/// Appends a byte slice to a byte sink.
pub fn push_bytes(out: &mut Vec<u8>, s: &[u8])
    ensures
        final(out)@ == old(out)@ + s@,
{
    let mut i: usize = 0;
    while i < s.len()
        invariant
            i <= s@.len(),
            out@ == old(out)@ + s@.subrange(0, i as int),
        decreases s@.len() - i,
    {
        out.push(s[i]);
        proof {
            assert(old(out)@ + s@.subrange(0, i + 1) =~= (old(out)@ + s@.subrange(0, i as int)).push(
                s@[i as int],
            ));
        }
        i = i + 1;
    }
    proof {
        assert(s@.subrange(0, s@.len() as int) =~= s@);
    }
}

/// Appends the bytes of an ASCII string literal to a byte sink.
pub fn push_str_bytes(out: &mut Vec<u8>, s: &str)
    ensures
        final(out)@ == old(out)@ + s.spec_bytes(),
{
    push_bytes(out, s.as_bytes());
}

/// Byte-for-byte equality of two slices.
pub fn bytes_eq(a: &[u8], b: &[u8]) -> (r: bool)
    ensures
        r == (a@ == b@),
{
    if a.len() != b.len() {
        return false;
    }
    let mut i: usize = 0;
    while i < a.len()
        invariant
            a@.len() == b@.len(),
            i <= a@.len(),
            forall|j: int| 0 <= j < i ==> a@[j] == b@[j],
        decreases a@.len() - i,
    {
        if a[i] != b[i] {
            return false;
        }
        i = i + 1;
    }
    proof {
        assert(a@ =~= b@);
    }
    true
}

/// Strict lexicographic order on byte sequences: byte by byte, a shorter
/// sequence before every extension of it.
pub open spec fn lex_lt(a: Seq<u8>, b: Seq<u8>) -> bool
    decreases a.len(),
{
    if b.len() == 0 {
        false
    } else if a.len() == 0 {
        true
    } else if a[0] < b[0] {
        true
    } else if a[0] > b[0] {
        false
    } else {
        lex_lt(a.skip(1), b.skip(1))
    }
}

/// Of two byte sequences, exactly one of `a < b`, `a == b`, `b < a` holds.
pub proof fn lemma_lex_trichotomy(a: Seq<u8>, b: Seq<u8>)
    ensures
        lex_lt(a, b) || lex_lt(b, a) || a == b,
        lex_lt(a, b) ==> !lex_lt(b, a) && a != b,
        lex_lt(b, a) ==> !lex_lt(a, b) && a != b,
    decreases a.len() + b.len(),
{
    if a.len() == 0 && b.len() == 0 {
        assert(a =~= b);
    } else if a.len() > 0 && b.len() > 0 && a[0] == b[0] {
        lemma_lex_trichotomy(a.skip(1), b.skip(1));
        if a.skip(1) == b.skip(1) {
            assert(a.skip(1).len() == a.len() - 1);
            assert(b.skip(1).len() == b.len() - 1);
            assert(forall|j: int| 1 <= j < a.len() ==> #[trigger] a[j] == a.skip(1)[j - 1]);
            assert(forall|j: int| 1 <= j < b.len() ==> #[trigger] b[j] == b.skip(1)[j - 1]);
            assert(a =~= b);
        }
        if a == b {
            assert(a.skip(1) =~= b.skip(1));
        }
    }
}

/// Lexicographic order is transitive.
pub proof fn lemma_lex_transitive(a: Seq<u8>, b: Seq<u8>, c: Seq<u8>)
    requires
        lex_lt(a, b),
        lex_lt(b, c),
    ensures
        lex_lt(a, c),
    decreases a.len() + b.len() + c.len(),
{
    if a.len() > 0 && b.len() > 0 && c.len() > 0 {
        if a[0] == b[0] && b[0] == c[0] {
            lemma_lex_transitive(a.skip(1), b.skip(1), c.skip(1));
        }
    }
}

/// A sequence whose first difference from another is a smaller byte, or which
/// is a strict prefix of it, comes first in lexicographic order.
pub proof fn lemma_lex_from_prefix(a: Seq<u8>, b: Seq<u8>, i: int)
    requires
        0 <= i <= a.len(),
        i <= b.len(),
        forall|j: int| 0 <= j < i ==> a[j] == b[j],
        (i < a.len() && i < b.len() && a[i] < b[i]) || (i == a.len() && i < b.len()),
    ensures
        lex_lt(a, b),
    decreases i,
{
    if i > 0 {
        lemma_lex_from_prefix(a.skip(1), b.skip(1), i - 1);
    }
}

/// Three-way lexicographic comparison; 0 for equal, 1 when `a` comes first,
/// 2 when `b` comes first.
pub fn lex_cmp(a: &[u8], b: &[u8]) -> (r: u8)
    ensures
        r == 0 || r == 1 || r == 2,
        (r == 0) == (a@ == b@),
        (r == 1) == lex_lt(a@, b@),
        (r == 2) == lex_lt(b@, a@),
{
    proof {
        lemma_lex_trichotomy(a@, b@);
    }
    let n: usize = if a.len() < b.len() {
        a.len()
    } else {
        b.len()
    };
    let mut i: usize = 0;
    while i < n
        invariant
            n <= a@.len() && n <= b@.len(),
            n == a@.len() || n == b@.len(),
            i <= n,
            forall|j: int| 0 <= j < i ==> a@[j] == b@[j],
            lex_lt(a@, b@) ==> !lex_lt(b@, a@) && a@ != b@,
            lex_lt(b@, a@) ==> !lex_lt(a@, b@) && a@ != b@,
            lex_lt(a@, b@) || lex_lt(b@, a@) || a@ == b@,
        decreases n - i,
    {
        if a[i] < b[i] {
            proof {
                lemma_lex_from_prefix(a@, b@, i as int);
            }
            return 1;
        }
        if a[i] > b[i] {
            proof {
                lemma_lex_from_prefix(b@, a@, i as int);
            }
            return 2;
        }
        i = i + 1;
    }
    if a.len() == b.len() {
        proof {
            assert(a@ =~= b@);
        }
        0
    } else if a.len() < b.len() {
        proof {
            lemma_lex_from_prefix(a@, b@, n as int);
        }
        1
    } else {
        proof {
            lemma_lex_from_prefix(b@, a@, n as int);
        }
        2
    }
}

} // verus!
