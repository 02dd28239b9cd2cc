//! Standard base64 encoding (RFC 4648 alphabet, with `=` padding).

use vstd::prelude::*;

use crate::text::{push_all, string_from_chars};

verus! {

/// The character of the 6-bit value `v` in the standard alphabet
/// `A`–`Z`, `a`–`z`, `0`–`9`, `+`, `/`.
pub open spec fn b64_char(v: int) -> char {
    if v < 26 {
        ((65 + v) as u32) as char
    } else if v < 52 {
        ((97 + v - 26) as u32) as char
    } else if v < 62 {
        ((48 + v - 52) as u32) as char
    } else if v == 62 {
        '+'
    } else {
        '/'
    }
}

/// The byte at `i` of a group, 0 past its end.
pub open spec fn byte_or_zero(g: Seq<u8>, i: int) -> int {
    if i < g.len() {
        g[i] as int
    } else {
        0
    }
}

/// The four characters that encode a group of one to three bytes: the
/// bytes read as a 24-bit number, cut into four 6-bit values, with `=` in
/// place of the values that only the missing bytes make up.
pub open spec fn encode_group(g: Seq<u8>) -> Seq<char> {
    let t = byte_or_zero(g, 0) * 65536 + byte_or_zero(g, 1) * 256 + byte_or_zero(g, 2);
    seq![
        b64_char(t / 262144 % 64),
        b64_char(t / 4096 % 64),
        if g.len() > 1 {
            b64_char(t / 64 % 64)
        } else {
            '='
        },
        if g.len() > 2 {
            b64_char(t % 64)
        } else {
            '='
        },
    ]
}

/// The encoding of the first `k` groups of three bytes of `d` (the last
/// of them may be shorter).
pub open spec fn encode_groups(d: Seq<u8>, k: nat) -> Seq<char>
    decreases k,
{
    if k == 0 {
        Seq::empty()
    } else {
        let start: int = 3 * (k - 1);
        let end: int = if 3 * k < d.len() {
            (3 * k) as int
        } else {
            d.len() as int
        };
        encode_groups(d, (k - 1) as nat) + encode_group(d.subrange(start, end))
    }
}

/// How many groups `n` bytes make: `n / 3` rounded up.
pub open spec fn group_count(n: nat) -> nat {
    (n + 2) / 3
}

/// The base64 encoding of `d`.
pub open spec fn base64_spec(d: Seq<u8>) -> Seq<char> {
    encode_groups(d, group_count(d.len()))
}

/// Each group encodes to four characters.
pub proof fn lemma_encode_groups_len(d: Seq<u8>, k: nat)
    ensures
        encode_groups(d, k).len() == 4 * k,
    decreases k,
{
    if k > 0 {
        lemma_encode_groups_len(d, (k - 1) as nat);
    }
}

proof fn lemma_encode_groups_step(d: Seq<u8>, k: nat)
    requires
        3 * k < d.len(),
    ensures
        encode_groups(d, k + 1) == encode_groups(d, k) + encode_group(
            d.subrange((3 * k) as int, group_end(d.len() as int, (3 * k) as int)),
        ),
{
}

proof fn lemma_group_count(n: nat, k: nat)
    requires
        3 * k >= n,
        k > 0 ==> 3 * (k - 1) < n,
    ensures
        k == group_count(n),
{
}

fn alphabet_char(v: u32) -> (r: char)
    requires
        v < 64,
    ensures
        r == b64_char(v as int),
{
    if v < 26 {
        ((65 + v) as u8) as char
    } else if v < 52 {
        ((97 + v - 26) as u8) as char
    } else if v < 62 {
        ((48 + v - 52) as u8) as char
    } else if v == 62 {
        '+'
    } else {
        '/'
    }
}

/// The end of the group that starts at `i`.
pub open spec fn group_end(n: int, i: int) -> int {
    if i + 3 < n {
        i + 3
    } else {
        n
    }
}

fn group_chars(data: &[u8], i: usize) -> (r: Vec<char>)
    requires
        i < data@.len(),
    ensures
        r@ == encode_group(data@.subrange(i as int, group_end(data@.len() as int, i as int))),
{
    let n = data.len();
    let rest = n - i;
    let b0: u32 = data[i] as u32;
    let b1: u32 = if rest > 1 {
        data[i + 1] as u32
    } else {
        0
    };
    let b2: u32 = if rest > 2 {
        data[i + 2] as u32
    } else {
        0
    };
    let ghost g = data@.subrange(i as int, group_end(n as int, i as int));
    assert(byte_or_zero(g, 0) == b0);
    assert(byte_or_zero(g, 1) == b1);
    assert(byte_or_zero(g, 2) == b2);
    let t: u32 = b0 * 65536 + b1 * 256 + b2;
    let c0 = alphabet_char(t / 262144 % 64);
    let c1 = alphabet_char(t / 4096 % 64);
    let c2 = if rest > 1 {
        alphabet_char(t / 64 % 64)
    } else {
        '='
    };
    let c3 = if rest > 2 {
        alphabet_char(t % 64)
    } else {
        '='
    };
    let r = vec![c0, c1, c2, c3];
    assert(r@ =~= encode_group(g));
    r
}

/// Encode bytes as base64, four characters for each three bytes, the last
/// group padded with `=`.
pub fn encode(data: &[u8]) -> (r: String)
    ensures
        r@ == base64_spec(data@),
        r@.len() == 4 * group_count(data@.len()),
{
    let n = data.len();
    let mut out: Vec<char> = Vec::new();
    let mut i: usize = 0;
    let ghost mut k: nat = 0;
    while i < n
        invariant
            n == data@.len(),
            i == 3 * k,
            i <= n + 2,
            k > 0 ==> 3 * (k - 1) < n,
            out@ == encode_groups(data@, k),
        decreases n + 3 - i,
    {
        let g = group_chars(data, i);
        push_all(&mut out, g.as_slice());
        proof {
            lemma_encode_groups_step(data@, k);
            k = k + 1;
        }
        i = i + 3;
    }
    proof {
        lemma_group_count(n as nat, k);
        lemma_encode_groups_len(data@, k);
    }
    string_from_chars(out.as_slice())
}

// ---------------------------------------------------------------------------
// Laws
// ---------------------------------------------------------------------------

/// Groups that lie wholly within a prefix encode as they do there.
proof fn lemma_encode_groups_prefix(a: Seq<u8>, b: Seq<u8>, j: nat)
    requires
        3 * j <= a.len(),
    ensures
        encode_groups(a + b, j) == encode_groups(a, j),
    decreases j,
{
    if j > 0 {
        lemma_encode_groups_prefix(a, b, (j - 1) as nat);
        let start: int = 3 * (j - 1);
        let end: int = (3 * j) as int;
        assert((a + b).subrange(start, end) =~= a.subrange(start, end));
    }
}

proof fn lemma_encode_groups_unfold(d: Seq<u8>, k: nat)
    requires
        k > 0,
    ensures
        encode_groups(d, k) == encode_groups(d, (k - 1) as nat) + encode_group(
            d.subrange(3 * (k - 1), group_end(d.len() as int, 3 * (k - 1))),
        ),
{
}

proof fn lemma_concat_step(a: Seq<u8>, b: Seq<u8>, m: nat, k: nat)
    requires
        a.len() == 3 * m,
        k > 0,
        3 * k <= b.len() + 2,
    ensures
        (a + b).subrange(
            3 * (m + k - 1),
            group_end((a + b).len() as int, 3 * (m + k - 1)),
        ) == b.subrange(3 * (k - 1), group_end(b.len() as int, 3 * (k - 1))),
{
    let ab = a + b;
    let x = ab.subrange(3 * (m + k - 1), group_end(ab.len() as int, 3 * (m + k - 1)));
    let y = b.subrange(3 * (k - 1), group_end(b.len() as int, 3 * (k - 1)));
    assert(x.len() == y.len());
    assert forall|j: int| 0 <= j < x.len() implies x[j] == y[j] by {
        assert(x[j] == ab[3 * (m + k - 1) + j]);
        assert(ab[3 * (m + k - 1) + j] == b[3 * (k - 1) + j]);
    }
    assert(x =~= y);
}

/// Past a prefix of `m` whole groups, the groups of a concatenation are
/// those of the second part.
proof fn lemma_encode_groups_concat(a: Seq<u8>, b: Seq<u8>, m: nat, k: nat)
    requires
        a.len() == 3 * m,
        3 * k <= b.len() + 2,
    ensures
        encode_groups(a + b, m + k) == encode_groups(a, m) + encode_groups(b, k),
    decreases k,
{
    if k == 0 {
        lemma_encode_groups_prefix(a, b, m);
        assert(encode_groups(a, m) + encode_groups(b, 0) =~= encode_groups(a, m));
    } else {
        let k1 = (k - 1) as nat;
        lemma_encode_groups_concat(a, b, m, k1);
        lemma_encode_groups_unfold(a + b, m + k);
        lemma_encode_groups_unfold(b, k);
        lemma_concat_step(a, b, m, k);
        assert((m + k - 1) as nat == m + k1);
        let p = encode_groups(a, m);
        let q = encode_groups(b, k1);
        let g = encode_group(b.subrange(3 * (k - 1), group_end(b.len() as int, 3 * (k - 1))));
        assert((p + q) + g =~= p + (q + g));
    }
}

/// Law: encoding a concatenation whose first part is a whole number of
/// three-byte groups encodes each part on its own and joins the results.
pub proof fn law_base64_concat(a: Seq<u8>, b: Seq<u8>)
    requires
        a.len() % 3 == 0,
    ensures
        base64_spec(a + b) == base64_spec(a) + base64_spec(b),
{
    let m = (a.len() / 3) as nat;
    assert(a.len() == 3 * m);
    lemma_encode_groups_concat(a, b, m, group_count(b.len()));
    assert(group_count((a + b).len()) == m + group_count(b.len()));
    assert(group_count(a.len()) == m);
}

/// The 6-bit value of a character of the standard alphabet (0 for any
/// other character, `=` among them).
pub open spec fn b64_value(c: char) -> int {
    if 'A' <= c <= 'Z' {
        c as int - 65
    } else if 'a' <= c <= 'z' {
        c as int - 97 + 26
    } else if '0' <= c <= '9' {
        c as int - 48 + 52
    } else if c == '+' {
        62
    } else if c == '/' {
        63
    } else {
        0
    }
}

/// The bytes four characters stand for: one, then a second unless the
/// third character is `=`, then a third unless the fourth is `=`.
pub open spec fn decode_group(g: Seq<char>) -> Seq<u8> {
    let t = b64_value(g[0]) * 262144 + b64_value(g[1]) * 4096 + b64_value(g[2]) * 64 + b64_value(
        g[3],
    );
    let first = seq![(t / 65536 % 256) as u8];
    let second = if g[2] != '=' {
        seq![(t / 256 % 256) as u8]
    } else {
        Seq::empty()
    };
    let third = if g[3] != '=' {
        seq![(t % 256) as u8]
    } else {
        Seq::empty()
    };
    first + second + third
}

/// Standard base64 decoding, four characters at a time (the length a
/// multiple of four).
pub open spec fn base64_decode_spec(s: Seq<char>) -> Seq<u8>
    decreases s.len(),
{
    if s.len() < 4 {
        Seq::empty()
    } else {
        base64_decode_spec(s.take(s.len() - 4)) + decode_group(s.subrange(s.len() - 4, s.len() as int))
    }
}

proof fn lemma_b64_value_char(v: int)
    requires
        0 <= v < 64,
    ensures
        b64_value(b64_char(v)) == v,
        b64_char(v) != '=',
{
}

proof fn lemma_group_arith(b0: u32, b1: u32, b2: u32)
    by (bit_vector)
    requires
        b0 < 256,
        b1 < 256,
        b2 < 256,
    ensures
        ({
            let t = b0 * 65536 + b1 * 256 + b2;
            &&& (t / 262144 % 64) * 262144 + (t / 4096 % 64) * 4096 + (t / 64 % 64) * 64 + t % 64 == t
            &&& t / 65536 % 256 == b0
            &&& t / 256 % 256 == b1
            &&& t % 256 == b2
            &&& b2 == 0 ==> t % 64 == 0
            &&& b1 == 0 && b2 == 0 ==> t / 64 % 64 == 0
        }),
{
}

proof fn lemma_decode_encode_group(g: Seq<u8>)
    requires
        1 <= g.len() <= 3,
    ensures
        decode_group(encode_group(g)) == g,
{
    let b0 = byte_or_zero(g, 0);
    let b1 = byte_or_zero(g, 1);
    let b2 = byte_or_zero(g, 2);
    lemma_group_arith(b0 as u32, b1 as u32, b2 as u32);
    let t = b0 * 65536 + b1 * 256 + b2;
    let e = encode_group(g);
    lemma_b64_value_char(t / 262144 % 64);
    lemma_b64_value_char(t / 4096 % 64);
    lemma_b64_value_char(t / 64 % 64);
    lemma_b64_value_char(t % 64);
    assert(b64_value('=') == 0);
    if g.len() == 1 {
        assert(decode_group(e) =~= g);
    } else if g.len() == 2 {
        assert(decode_group(e) =~= g);
    } else {
        assert(decode_group(e) =~= g);
    }
}

proof fn lemma_decode_encode_groups(d: Seq<u8>, k: nat)
    requires
        3 * k <= d.len() + 2,
    ensures
        base64_decode_spec(encode_groups(d, k)) == d.take(
            if 3 * k < d.len() {
                (3 * k) as int
            } else {
                d.len() as int
            },
        ),
    decreases k,
{
    lemma_encode_groups_len(d, k);
    if k == 0 {
        assert(d.take(0) =~= Seq::<u8>::empty());
    } else {
        lemma_decode_encode_groups(d, (k - 1) as nat);
        lemma_encode_groups_len(d, (k - 1) as nat);
        let s = encode_groups(d, k);
        let prev = encode_groups(d, (k - 1) as nat);
        let start: int = 3 * (k - 1);
        let end: int = if 3 * k < d.len() {
            (3 * k) as int
        } else {
            d.len() as int
        };
        let g = d.subrange(start, end);
        assert(s.take(s.len() - 4) =~= prev);
        assert(s.subrange(s.len() - 4, s.len() as int) =~= encode_group(g));
        lemma_decode_encode_group(g);
        assert(d.take(start) + g =~= d.take(end));
    }
}

/// Law: base64 decoding gives back the encoded bytes.
pub proof fn law_base64_round_trip(d: Seq<u8>)
    ensures
        base64_decode_spec(base64_spec(d)) == d,
{
    lemma_decode_encode_groups(d, group_count(d.len()));
    assert(d.take(d.len() as int) =~= d);
}

} // verus!
