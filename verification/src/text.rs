//! Character-level text helpers shared by the rest of the library.
//!
//! Strings are viewed as sequences of `char`. The helpers here convert
//! between `str`/`String` and `Vec<char>`, trim Unicode white space,
//! change letter case, and format and parse decimal numbers.

use vstd::prelude::*;

verus! {

// ---------------------------------------------------------------------------
// Conversions
// ---------------------------------------------------------------------------

/// The characters of `s`, in order.
pub fn chars_of(s: &str) -> (r: Vec<char>)
    ensures
        r@ == s@,
{
    let n = s.unicode_len();
    let mut v: Vec<char> = Vec::new();
    let mut i: usize = 0;
    while i < n
        invariant
            n == s@.len(),
            i <= n,
            v@ == s@.take(i as int),
        decreases n - i,
    {
        let c = s.get_char(i);
        v.push(c);
        assert(s@.take(i as int + 1) =~= s@.take(i as int).push(c));
        i = i + 1;
    }
    assert(s@.take(n as int) =~= s@);
    v
}

/// Collects characters into a `String` (std `FromIterator<char>` for `String`).
#[verifier::external_body]
pub(crate) fn string_from_chars(v: &[char]) -> (r: String)
    ensures
        r@ == v@,
{
    v.iter().collect()
}

/// Appends all characters of `src` to `dst`.
pub fn push_all(dst: &mut Vec<char>, src: &[char])
    ensures
        final(dst)@ == old(dst)@ + src@,
{
    let n = src.len();
    let mut i: usize = 0;
    while i < n
        invariant
            n == src@.len(),
            i <= n,
            dst@ == old(dst)@ + src@.take(i as int),
        decreases n - i,
    {
        dst.push(src[i]);
        assert(src@.take(i as int + 1) =~= src@.take(i as int).push(src@[i as int]));
        i = i + 1;
    }
    assert(src@.take(n as int) =~= src@);
}

/// Appends all characters of the string slice `src` to `dst`.
pub fn push_str_chars(dst: &mut Vec<char>, src: &str)
    ensures
        final(dst)@ == old(dst)@ + src@,
{
    let cs = chars_of(src);
    push_all(dst, cs.as_slice());
}

/// Whether two character sequences are equal.
pub fn chars_eq(a: &[char], b: &[char]) -> (r: bool)
    ensures
        r == (a@ == b@),
{
    if a.len() != b.len() {
        return false;
    }
    let n = a.len();
    let mut i: usize = 0;
    while i < n
        invariant
            n == a@.len(),
            n == b@.len(),
            i <= n,
            forall|k: int| 0 <= k < i ==> a@[k] == b@[k],
        decreases n - i,
    {
        if a[i] != b[i] {
            return false;
        }
        i = i + 1;
    }
    assert(a@ =~= b@);
    true
}

/// Whether `s` holds the character `c`.
pub fn contains_char(s: &[char], c: char) -> (r: bool)
    ensures
        r == s@.contains(c),
{
    let n = s.len();
    let mut i: usize = 0;
    while i < n
        invariant
            n == s@.len(),
            i <= n,
            forall|k: int| 0 <= k < i ==> s@[k] != c,
        decreases n - i,
    {
        if s[i] == c {
            assert(s@[i as int] == c);
            return true;
        }
        i = i + 1;
    }
    false
}

/// Joins pieces with `sep` between them (`[..].join(sep)`).
pub open spec fn join_with(parts: Seq<Seq<char>>, sep: Seq<char>) -> Seq<char>
    decreases parts.len(),
{
    if parts.len() == 0 {
        Seq::empty()
    } else if parts.len() == 1 {
        parts[0]
    } else {
        join_with(parts.drop_last(), sep) + sep + parts.last()
    }
}

/// The character views of a list of strings.
pub open spec fn string_views(v: Seq<String>) -> Seq<Seq<char>> {
    v.map_values(|s: String| s@)
}

/// The characters of `parts` joined with `sep` between them.
pub fn join_strings(parts: &[String], sep: &str) -> (r: Vec<char>)
    ensures
        r@ == join_with(string_views(parts@), sep@),
{
    let n = parts.len();
    let ghost views = string_views(parts@);
    let mut out: Vec<char> = Vec::new();
    let mut i: usize = 0;
    assert(views.take(0) =~= Seq::<Seq<char>>::empty());
    while i < n
        invariant
            n == parts@.len(),
            views == string_views(parts@),
            i <= n,
            out@ == join_with(views.take(i as int), sep@),
        decreases n - i,
    {
        if i > 0 {
            push_str_chars(&mut out, sep);
        }
        push_str_chars(&mut out, parts[i].as_str());
        proof {
            let t = views.take(i as int + 1);
            assert(t.drop_last() =~= views.take(i as int));
            assert(t.last() == parts@[i as int]@);
        }
        i = i + 1;
    }
    assert(views.take(n as int) =~= views);
    out
}

// ---------------------------------------------------------------------------
// White space
// ---------------------------------------------------------------------------

/// Unicode `White_Space`, the set that `char::is_whitespace` reports.
pub open spec fn is_white_space(c: char) -> bool {
    let u = c as u32;
    ||| 0x09 <= u <= 0x0D
    ||| u == 0x20
    ||| u == 0x85
    ||| u == 0xA0
    ||| u == 0x1680
    ||| 0x2000 <= u <= 0x200A
    ||| u == 0x2028
    ||| u == 0x2029
    ||| u == 0x202F
    ||| u == 0x205F
    ||| u == 0x3000
}

/// Executable form of [`is_white_space`].
pub fn char_is_white_space(c: char) -> (r: bool)
    ensures
        r == is_white_space(c),
{
    let u = c as u32;
    (0x09 <= u && u <= 0x0D) || u == 0x20 || u == 0x85 || u == 0xA0 || u == 0x1680 || (0x2000
        <= u && u <= 0x200A) || u == 0x2028 || u == 0x2029 || u == 0x202F || u == 0x205F || u
        == 0x3000
}

/// `s` without its leading white space.
pub open spec fn trim_start(s: Seq<char>) -> Seq<char>
    decreases s.len(),
{
    if s.len() > 0 && is_white_space(s[0]) {
        trim_start(s.drop_first())
    } else {
        s
    }
}

/// `s` without its trailing white space.
pub open spec fn trim_end(s: Seq<char>) -> Seq<char>
    decreases s.len(),
{
    if s.len() > 0 && is_white_space(s.last()) {
        trim_end(s.drop_last())
    } else {
        s
    }
}

/// `s` without leading and trailing white space (`str::trim`).
pub open spec fn trim(s: Seq<char>) -> Seq<char> {
    trim_end(trim_start(s))
}

proof fn lemma_trim_start_skip(s: Seq<char>, i: int)
    requires
        0 <= i <= s.len(),
        forall|k: int| 0 <= k < i ==> is_white_space(#[trigger] s[k]),
        i == s.len() || !is_white_space(s[i]),
    ensures
        trim_start(s) == s.skip(i),
    decreases i,
{
    if i == 0 {
        assert(s.skip(0) =~= s);
    } else {
        let t = s.drop_first();
        assert forall|k: int| 0 <= k < i - 1 implies is_white_space(#[trigger] t[k]) by {
            assert(t[k] == s[k + 1]);
        }
        if i - 1 < t.len() {
            assert(t[i - 1] == s[i]);
        }
        lemma_trim_start_skip(t, i - 1);
        assert(t.skip(i - 1) =~= s.skip(i));
    }
}

proof fn lemma_trim_end_take(s: Seq<char>, j: int)
    requires
        0 <= j <= s.len(),
        forall|k: int| j <= k < s.len() ==> is_white_space(#[trigger] s[k]),
        j == 0 || !is_white_space(s[j - 1]),
    ensures
        trim_end(s) == s.take(j),
    decreases s.len() - j,
{
    if j == s.len() {
        assert(s.take(j) =~= s);
        if s.len() > 0 {
            assert(s.last() == s[j - 1]);
        }
    } else {
        let t = s.drop_last();
        assert(is_white_space(s[s.len() - 1]));
        assert forall|k: int| j <= k < t.len() implies is_white_space(#[trigger] t[k]) by {
            assert(t[k] == s[k]);
        }
        if j > 0 {
            assert(t[j - 1] == s[j - 1]);
        }
        lemma_trim_end_take(t, j);
        assert(t.take(j) =~= s.take(j));
    }
}

/// The characters of `s` without leading and trailing white space.
pub fn trim_chars(s: &[char]) -> (r: Vec<char>)
    ensures
        r@ == trim(s@),
{
    let n = s.len();
    let mut i: usize = 0;
    while i < n && char_is_white_space(s[i])
        invariant
            n == s@.len(),
            i <= n,
            forall|k: int| 0 <= k < i ==> is_white_space(#[trigger] s@[k]),
        decreases n - i,
    {
        i = i + 1;
    }
    proof {
        lemma_trim_start_skip(s@, i as int);
    }
    let mut j: usize = n;
    while j > i && char_is_white_space(s[j - 1])
        invariant
            n == s@.len(),
            i <= j <= n,
            forall|k: int| j <= k < n ==> is_white_space(#[trigger] s@[k]),
        decreases j,
    {
        j = j - 1;
    }
    let ghost t = s@.skip(i as int);
    proof {
        assert forall|k: int| (j - i) <= k < t.len() implies is_white_space(#[trigger] t[k]) by {
            assert(t[k] == s@[k + i]);
        }
        if j > i {
            assert(t[j - i - 1] == s@[j - 1]);
        }
        lemma_trim_end_take(t, j - i);
    }
    let mut r: Vec<char> = Vec::new();
    let mut k: usize = i;
    while k < j
        invariant
            n == s@.len(),
            i <= k <= j <= n,
            r@ == s@.subrange(i as int, k as int),
        decreases j - k,
    {
        r.push(s[k]);
        assert(s@.subrange(i as int, k as int + 1) =~= s@.subrange(i as int, k as int).push(
            s@[k as int],
        ));
        k = k + 1;
    }
    assert(r@ =~= t.take(j - i));
    r
}


// ---------------------------------------------------------------------------
// Letter case
// ---------------------------------------------------------------------------

/// ASCII lower-case mapping of one character (other characters are kept).
pub open spec fn ascii_lower(c: char) -> char {
    if 'A' <= c <= 'Z' {
        ((c as u32) + 32) as char
    } else {
        c
    }
}

/// ASCII upper-case mapping of one character (other characters are kept).
pub open spec fn ascii_upper(c: char) -> char {
    if 'a' <= c <= 'z' {
        ((c as u32) - 32) as char
    } else {
        c
    }
}

/// What std's `str::to_lowercase` returns for a string.
pub uninterp spec fn spec_str_lowercase(s: Seq<char>) -> Seq<char>;

/// What std's `str::to_uppercase` returns for a string.
pub uninterp spec fn spec_str_uppercase(s: Seq<char>) -> Seq<char>;

/// What std's `char::to_lowercase` yields for a character.
pub uninterp spec fn spec_char_lowercase(c: char) -> Seq<char>;

/// What std's `char::to_uppercase` yields for a character.
pub uninterp spec fn spec_char_uppercase(c: char) -> Seq<char>;

/// Whether every character is ASCII.
pub open spec fn is_ascii_seq(s: Seq<char>) -> bool {
    forall|i: int| 0 <= i < s.len() ==> #[trigger] s[i] <= '\u{7f}'
}

/// Lower case of a string, as `str::to_lowercase` gives it: on ASCII text
/// the Unicode mapping is the ASCII one.
pub open spec fn lowercase(s: Seq<char>) -> Seq<char> {
    if is_ascii_seq(s) {
        s.map_values(|c: char| ascii_lower(c))
    } else {
        spec_str_lowercase(s)
    }
}

/// Upper case of a string, as `str::to_uppercase` gives it.
pub open spec fn uppercase(s: Seq<char>) -> Seq<char> {
    if is_ascii_seq(s) {
        s.map_values(|c: char| ascii_upper(c))
    } else {
        spec_str_uppercase(s)
    }
}

/// Lower case of one character, as `char::to_lowercase` yields it.
pub open spec fn char_lowercase(c: char) -> Seq<char> {
    if c <= '\u{7f}' {
        seq![ascii_lower(c)]
    } else {
        spec_char_lowercase(c)
    }
}

/// Upper case of one character, as `char::to_uppercase` yields it.
pub open spec fn char_uppercase(c: char) -> Seq<char> {
    if c <= '\u{7f}' {
        seq![ascii_upper(c)]
    } else {
        spec_char_uppercase(c)
    }
}

/// std `str::to_lowercase`. Claimed: the result is the Unicode lower case
/// of the string, a function of the string alone (`spec_str_lowercase`).
#[verifier::external_body]
fn std_str_to_lowercase(s: &str) -> (r: String)
    ensures
        r@ == spec_str_lowercase(s@),
{
    s.to_lowercase()
}

/// std `str::to_uppercase`. Claimed: the result is the Unicode upper case
/// of the string, a function of the string alone (`spec_str_uppercase`).
#[verifier::external_body]
fn std_str_to_uppercase(s: &str) -> (r: String)
    ensures
        r@ == spec_str_uppercase(s@),
{
    s.to_uppercase()
}

/// std `char::to_lowercase`, its characters collected. Claimed: they are a
/// function of the character alone (`spec_char_lowercase`).
#[verifier::external_body]
fn std_char_to_lowercase(c: char) -> (r: String)
    ensures
        r@ == spec_char_lowercase(c),
{
    c.to_lowercase().collect()
}

/// std `char::to_uppercase`, its characters collected. Claimed: they are a
/// function of the character alone (`spec_char_uppercase`).
#[verifier::external_body]
fn std_char_to_uppercase(c: char) -> (r: String)
    ensures
        r@ == spec_char_uppercase(c),
{
    c.to_uppercase().collect()
}

/// ASCII lower case of one character.
pub fn ascii_lower_char(c: char) -> (r: char)
    ensures
        r == ascii_lower(c),
{
    if 'A' <= c && c <= 'Z' {
        let b: u8 = c as u8;
        assert(b as u32 == c as u32);
        (b + 32) as char
    } else {
        c
    }
}

/// ASCII upper case of one character.
pub fn ascii_upper_char(c: char) -> (r: char)
    ensures
        r == ascii_upper(c),
{
    if 'a' <= c && c <= 'z' {
        let b: u8 = c as u8;
        assert(b as u32 == c as u32);
        (b - 32) as char
    } else {
        c
    }
}

/// Whether every character is ASCII.
pub fn chars_are_ascii(s: &[char]) -> (r: bool)
    ensures
        r == is_ascii_seq(s@),
{
    let n = s.len();
    let mut i: usize = 0;
    while i < n
        invariant
            n == s@.len(),
            i <= n,
            forall|k: int| 0 <= k < i ==> #[trigger] s@[k] <= '\u{7f}',
        decreases n - i,
    {
        if s[i] > '\u{7f}' {
            assert(!(s@[i as int] <= '\u{7f}'));
            return false;
        }
        assert(s@[i as int] <= '\u{7f}');
        i = i + 1;
    }
    true
}

/// Lower case of a character sequence (`str::to_lowercase`).
pub fn to_lowercase_chars(s: &[char]) -> (r: Vec<char>)
    ensures
        r@ == lowercase(s@),
{
    if chars_are_ascii(s) {
        let n = s.len();
        let mut v: Vec<char> = Vec::new();
        let mut i: usize = 0;
        while i < n
            invariant
                n == s@.len(),
                i <= n,
                v@ == s@.take(i as int).map_values(|c: char| ascii_lower(c)),
            decreases n - i,
        {
            v.push(ascii_lower_char(s[i]));
            assert(s@.take(i as int + 1).map_values(|c: char| ascii_lower(c)) =~= s@.take(
                i as int,
            ).map_values(|c: char| ascii_lower(c)).push(ascii_lower(s@[i as int])));
            i = i + 1;
        }
        assert(s@.take(n as int) =~= s@);
        v
    } else {
        let st = string_from_chars(s);
        let low = std_str_to_lowercase(st.as_str());
        chars_of(low.as_str())
    }
}

/// Upper case of a character sequence (`str::to_uppercase`).
pub fn to_uppercase_chars(s: &[char]) -> (r: Vec<char>)
    ensures
        r@ == uppercase(s@),
{
    if chars_are_ascii(s) {
        let n = s.len();
        let mut v: Vec<char> = Vec::new();
        let mut i: usize = 0;
        while i < n
            invariant
                n == s@.len(),
                i <= n,
                v@ == s@.take(i as int).map_values(|c: char| ascii_upper(c)),
            decreases n - i,
        {
            v.push(ascii_upper_char(s[i]));
            assert(s@.take(i as int + 1).map_values(|c: char| ascii_upper(c)) =~= s@.take(
                i as int,
            ).map_values(|c: char| ascii_upper(c)).push(ascii_upper(s@[i as int])));
            i = i + 1;
        }
        assert(s@.take(n as int) =~= s@);
        v
    } else {
        let st = string_from_chars(s);
        let up = std_str_to_uppercase(st.as_str());
        chars_of(up.as_str())
    }
}

/// Lower case of one character (`char::to_lowercase`).
pub fn char_to_lowercase(c: char) -> (r: Vec<char>)
    ensures
        r@ == char_lowercase(c),
{
    if c <= '\u{7f}' {
        let mut v: Vec<char> = Vec::new();
        v.push(ascii_lower_char(c));
        assert(v@ =~= seq![ascii_lower(c)]);
        v
    } else {
        let s = std_char_to_lowercase(c);
        chars_of(s.as_str())
    }
}

/// Upper case of one character (`char::to_uppercase`).
pub fn char_to_uppercase(c: char) -> (r: Vec<char>)
    ensures
        r@ == char_uppercase(c),
{
    if c <= '\u{7f}' {
        let mut v: Vec<char> = Vec::new();
        v.push(ascii_upper_char(c));
        assert(v@ =~= seq![ascii_upper(c)]);
        v
    } else {
        let s = std_char_to_uppercase(c);
        chars_of(s.as_str())
    }
}

// ---------------------------------------------------------------------------
// Decimal numbers
// ---------------------------------------------------------------------------

/// The ASCII digit for `d < 10`.
pub open spec fn digit_char(d: nat) -> char {
    ((d + 48) as u32) as char
}

/// The decimal representation of `n`, without sign or leading zeros
/// (`format!("{}", n)` for an unsigned integer).
pub open spec fn decimal(n: nat) -> Seq<char>
    decreases n,
{
    if n < 10 {
        seq![digit_char(n)]
    } else {
        decimal(n / 10) + seq![digit_char(n % 10)]
    }
}

fn digit_of(d: u64) -> (r: char)
    requires
        d < 10,
    ensures
        r == digit_char(d as nat),
{
    let b: u8 = d as u8;
    (b + 48) as char
}

/// The decimal representation of `n`.
pub fn u64_to_decimal(n: u64) -> (r: Vec<char>)
    ensures
        r@ == decimal(n as nat),
    decreases n,
{
    if n < 10 {
        let mut v: Vec<char> = Vec::new();
        v.push(digit_of(n));
        assert(v@ =~= seq![digit_char(n as nat)]);
        v
    } else {
        let mut v = u64_to_decimal(n / 10);
        v.push(digit_of(n % 10));
        v
    }
}

/// Whether `c` is an ASCII decimal digit.
pub open spec fn is_digit(c: char) -> bool {
    '0' <= c <= '9'
}

/// The value of a string of decimal digits.
pub open spec fn digits_value(s: Seq<char>) -> nat
    decreases s.len(),
{
    if s.len() == 0 {
        0
    } else {
        digits_value(s.drop_last()) * 10 + ((s.last() as u32) - 48) as nat
    }
}

/// The digits part of an unsigned number: `s` without one leading `+`.
pub open spec fn unsigned_digits(s: Seq<char>) -> Seq<char> {
    if s.len() > 0 && s[0] == '+' {
        s.drop_first()
    } else {
        s
    }
}

/// Whether every character of `d` is a decimal digit.
pub open spec fn all_digits(d: Seq<char>) -> bool {
    forall|i: int| 0 <= i < d.len() ==> is_digit(#[trigger] d[i])
}

/// What `str::parse::<u64>` accepts: an optional `+`, then one or more
/// decimal digits whose value fits in 64 bits.
pub open spec fn parse_u64_spec(s: Seq<char>) -> Option<u64> {
    let d = unsigned_digits(s);
    if d.len() > 0 && all_digits(d) && digits_value(d) <= u64::MAX {
        Some(digits_value(d) as u64)
    } else {
        None
    }
}

proof fn lemma_digits_value_monotone(s: Seq<char>, k: int)
    requires
        0 <= k <= s.len(),
        forall|i: int| 0 <= i < s.len() ==> is_digit(#[trigger] s[i]),
    ensures
        digits_value(s.take(k)) <= digits_value(s),
    decreases s.len() - k,
{
    if k < s.len() {
        let t = s.take(k + 1);
        assert(t.drop_last() =~= s.take(k));
        assert(is_digit(s[k]));
        lemma_digits_value_monotone(s, k + 1);
    } else {
        assert(s.take(k) =~= s);
    }
}

/// Parses a decimal unsigned integer as `str::parse::<u64>` does.
pub fn parse_u64(s: &[char]) -> (r: Option<u64>)
    ensures
        r == parse_u64_spec(s@),
{
    let n = s.len();
    let start: usize = if n > 0 && s[0] == '+' {
        1
    } else {
        0
    };
    let ghost d = unsigned_digits(s@);
    assert(d =~= s@.skip(start as int));
    if start >= n {
        return None;
    }
    let mut v: u64 = 0;
    let mut i: usize = start;
    while i < n
        invariant
            n == s@.len(),
            start <= i <= n,
            start < n,
            d =~= s@.skip(start as int),
            d == unsigned_digits(s@),
            forall|k: int| start <= k < i ==> is_digit(#[trigger] s@[k]),
            v as nat == digits_value(d.take(i - start)),
        decreases n - i,
    {
        let c = s[i];
        if !('0' <= c && c <= '9') {
            assert(d[i - start] == c);
            assert(!is_digit(d[i - start]));
            assert(!all_digits(d));
            return None;
        }
        let dg: u64 = (c as u32 - 48) as u64;
        assert(d.take(i - start + 1).drop_last() =~= d.take(i - start));
        assert(d.take(i - start + 1).last() == c);
        if v > (u64::MAX - dg) / 10 {
            proof {
                assert(v * 10 + dg > u64::MAX);
                assert(digits_value(d.take(i - start + 1)) == v * 10 + dg);
                // the remaining digits only grow the value
                if all_digits(d) {
                    lemma_digits_value_monotone(d, i - start + 1);
                    assert(digits_value(d) > u64::MAX);
                }
            }
            return None;
        }
        v = v * 10 + dg;
        i = i + 1;
    }
    assert(d.take(n - start) =~= d);
    assert forall|k: int| 0 <= k < d.len() implies is_digit(#[trigger] d[k]) by {
        assert(d[k] == s@[k + start]);
    }
    assert(all_digits(d));
    Some(v)
}

// ---------------------------------------------------------------------------
// Facts about ASCII case mapping
// ---------------------------------------------------------------------------

/// Whether no character of `s` is white space.
pub open spec fn no_white_space(s: Seq<char>) -> bool {
    forall|i: int| 0 <= i < s.len() ==> !is_white_space(#[trigger] s[i])
}

pub proof fn lemma_ascii_lower_char(c: char)
    requires
        c <= '\u{7f}',
    ensures
        ascii_lower(c) <= '\u{7f}',
        ascii_lower(ascii_lower(c)) == ascii_lower(c),
        (ascii_lower(c) == '-') == (c == '-'),
        is_white_space(ascii_lower(c)) == is_white_space(c),
        !('A' <= ascii_lower(c) <= 'Z'),
{
    if 'A' <= c <= 'Z' {
        let d = ((c as u32) + 32) as char;
        assert(d as u32 == (c as u32) + 32);
        assert('a' <= d <= 'z');
    }
}

pub proof fn lemma_ascii_upper_char(c: char)
    requires
        c <= '\u{7f}',
    ensures
        ascii_upper(c) <= '\u{7f}',
        ascii_upper(ascii_upper(c)) == ascii_upper(c),
        (ascii_upper(c) == '-') == (c == '-'),
        is_white_space(ascii_upper(c)) == is_white_space(c),
        !('a' <= ascii_upper(c) <= 'z'),
{
    if 'a' <= c <= 'z' {
        let d = ((c as u32) - 32) as char;
        assert(d as u32 == (c as u32) - 32);
        assert('A' <= d <= 'Z');
    }
}

/// Lower case of ASCII text is ASCII text of the same length, keeps `-`
/// and white space where they were, and changes no further when lowered
/// again.
pub proof fn lemma_lowercase_ascii(s: Seq<char>)
    requires
        is_ascii_seq(s),
    ensures
        lowercase(s).len() == s.len(),
        forall|i: int| 0 <= i < s.len() ==> #[trigger] lowercase(s)[i] == ascii_lower(s[i]),
        is_ascii_seq(lowercase(s)),
        lowercase(lowercase(s)) == lowercase(s),
        lowercase(s).contains('-') == s.contains('-'),
        no_white_space(s) ==> no_white_space(lowercase(s)),
{
    let l = lowercase(s);
    assert forall|i: int| 0 <= i < s.len() implies #[trigger] l[i] <= '\u{7f}' && ascii_lower(l[i])
        == l[i] && (l[i] == '-') == (s[i] == '-') && is_white_space(l[i]) == is_white_space(
        s[i],
    ) by {
        assert(s[i] <= '\u{7f}');
        lemma_ascii_lower_char(s[i]);
    }
    assert(lowercase(l) =~= l);
    if s.contains('-') {
        let k = choose|k: int| 0 <= k < s.len() && s[k] == '-';
        assert(l[k] == '-');
    }
    if l.contains('-') {
        let k = choose|k: int| 0 <= k < l.len() && l[k] == '-';
        assert(s[k] == '-');
    }
}

/// Upper case of ASCII text, as [`lemma_lowercase_ascii`] for lower case.
pub proof fn lemma_uppercase_ascii(s: Seq<char>)
    requires
        is_ascii_seq(s),
    ensures
        uppercase(s).len() == s.len(),
        forall|i: int| 0 <= i < s.len() ==> #[trigger] uppercase(s)[i] == ascii_upper(s[i]),
        is_ascii_seq(uppercase(s)),
        uppercase(uppercase(s)) == uppercase(s),
        uppercase(s).contains('-') == s.contains('-'),
        no_white_space(s) ==> no_white_space(uppercase(s)),
{
    let l = uppercase(s);
    assert forall|i: int| 0 <= i < s.len() implies #[trigger] l[i] <= '\u{7f}' && ascii_upper(l[i])
        == l[i] && (l[i] == '-') == (s[i] == '-') && is_white_space(l[i]) == is_white_space(
        s[i],
    ) by {
        assert(s[i] <= '\u{7f}');
        lemma_ascii_upper_char(s[i]);
    }
    assert(uppercase(l) =~= l);
    if s.contains('-') {
        let k = choose|k: int| 0 <= k < s.len() && s[k] == '-';
        assert(l[k] == '-');
    }
    if l.contains('-') {
        let k = choose|k: int| 0 <= k < l.len() && l[k] == '-';
        assert(s[k] == '-');
    }
}

/// Text without white space is its own trim.
pub proof fn lemma_trim_no_white_space(s: Seq<char>)
    requires
        no_white_space(s),
    ensures
        trim(s) == s,
{
    lemma_trim_start_skip(s, 0);
    assert(s.skip(0) =~= s);
    lemma_trim_end_take(s, s.len() as int);
    assert(s.take(s.len() as int) =~= s);
}

proof fn lemma_trim_start_first(s: Seq<char>)
    ensures
        trim_start(s).len() <= s.len(),
        trim_start(s).len() > 0 ==> !is_white_space(trim_start(s)[0]),
        trim_start(s).len() > 0 ==> trim_start(s).last() == s.last(),
    decreases s.len(),
{
    if s.len() > 0 && is_white_space(s[0]) {
        lemma_trim_start_first(s.drop_first());
    }
}

proof fn lemma_trim_end_prefix(s: Seq<char>)
    ensures
        trim_end(s).len() <= s.len(),
        forall|i: int| 0 <= i < trim_end(s).len() ==> #[trigger] trim_end(s)[i] == s[i],
        trim_end(s).len() > 0 ==> !is_white_space(trim_end(s).last()),
    decreases s.len(),
{
    if s.len() > 0 && is_white_space(s.last()) {
        lemma_trim_end_prefix(s.drop_last());
    }
}

/// A trimmed string neither starts nor ends with white space.
pub proof fn lemma_trim_ends(s: Seq<char>)
    ensures
        trim(s).len() > 0 ==> !is_white_space(trim(s)[0]) && !is_white_space(trim(s).last()),
{
    lemma_trim_start_first(s);
    lemma_trim_end_prefix(trim_start(s));
    if trim(s).len() > 0 {
        assert(trim(s)[0] == trim_start(s)[0]);
    }
}

/// A string that neither starts nor ends with white space is its own trim.
pub proof fn lemma_trim_clean(s: Seq<char>)
    requires
        s.len() > 0 ==> !is_white_space(s[0]) && !is_white_space(s.last()),
    ensures
        trim(s) == s,
{
}

/// Trimming twice trims once.
pub proof fn lemma_trim_idempotent(s: Seq<char>)
    ensures
        trim(trim(s)) == trim(s),
{
    lemma_trim_ends(s);
    lemma_trim_clean(trim(s));
}

} // verus!
