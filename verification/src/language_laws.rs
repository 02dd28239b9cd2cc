//! Laws of language code normalization.
//!
//! On ASCII codes the normalization puts a code into the format its provider
//! expects, normalizing an already normalized code changes nothing, a code
//! already in its provider's form passes through, and a listed ISO code
//! survives the round trip through its tag.

use vstd::prelude::*;

use crate::language::{
    bcp47_case, bcp47_to_iso, bcp47_variant_table, capitalize_spec, default_code, is_known_spec,
    iso_bcp47_table, iso_to_bcp47, lemma_split_dash_nonempty, lower_each, normalize_spec,
    provider_format, split_dash, LanguageFormat,
};
use crate::table::{
    lemma_lookup_first_found, lemma_lookup_first_is_entry, lemma_lookup_last_found,
    lemma_lookup_last_is_entry, lookup_first, lookup_last_by_value,
};
use crate::text::{
    ascii_lower, ascii_upper, char_lowercase, char_uppercase, is_ascii_seq, is_white_space,
    lemma_ascii_lower_char, lemma_ascii_upper_char, lemma_lowercase_ascii, lemma_trim_clean,
    lemma_trim_ends, lemma_trim_idempotent, lemma_trim_no_white_space, lemma_uppercase_ascii,
    lowercase, no_white_space, trim, trim_end, trim_start, uppercase,
};

verus! {

// ---------------------------------------------------------------------------
// Splitting
// ---------------------------------------------------------------------------

/// Pieces hold no `-`, and inherit ASCII-ness and absence of white space.
proof fn lemma_split_parts(s: Seq<char>)
    ensures
        split_dash(s).len() >= 1,
        forall|i: int| 0 <= i < split_dash(s).len() ==> !(#[trigger] split_dash(s)[i]).contains('-'),
        is_ascii_seq(s) ==> forall|i: int|
            0 <= i < split_dash(s).len() ==> is_ascii_seq(#[trigger] split_dash(s)[i]),
        no_white_space(s) ==> forall|i: int|
            0 <= i < split_dash(s).len() ==> no_white_space(#[trigger] split_dash(s)[i]),
    decreases s.len(),
{
    if s.len() == 0 {
        let p = split_dash(s);
        assert(p[0] =~= Seq::<char>::empty());
    } else {
        let t = s.drop_last();
        lemma_split_parts(t);
        let init = split_dash(t);
        let c = s.last();
        assert(is_ascii_seq(s) ==> is_ascii_seq(t)) by {
            if is_ascii_seq(s) {
                assert forall|k: int| 0 <= k < t.len() implies #[trigger] t[k] <= '\u{7f}' by {
                    assert(t[k] == s[k]);
                }
            }
        }
        assert(no_white_space(s) ==> no_white_space(t)) by {
            if no_white_space(s) {
                assert forall|k: int| 0 <= k < t.len() implies !is_white_space(#[trigger] t[k]) by {
                    assert(t[k] == s[k]);
                }
            }
        }
        if c == '-' {
            let p = init.push(Seq::<char>::empty());
            assert(p[p.len() - 1] =~= Seq::<char>::empty());
            assert forall|i: int| 0 <= i < p.len() implies !(#[trigger] p[i]).contains('-') by {
                if i < init.len() {
                    assert(p[i] == init[i]);
                }
            }
        } else {
            let last = init.last().push(c);
            let p = init.update(init.len() - 1, last);
            assert(!last.contains('-')) by {
                if last.contains('-') {
                    let k = choose|k: int| 0 <= k < last.len() && last[k] == '-';
                    if k < last.len() - 1 {
                        assert(init.last()[k] == '-');
                    }
                }
            }
            assert(is_ascii_seq(s) ==> is_ascii_seq(last)) by {
                if is_ascii_seq(s) {
                    assert(s[s.len() - 1] <= '\u{7f}');
                    assert forall|k: int| 0 <= k < last.len() implies #[trigger] last[k]
                        <= '\u{7f}' by {
                        if k < last.len() - 1 {
                            assert(last[k] == init.last()[k]);
                            assert(is_ascii_seq(init[init.len() - 1]));
                        }
                    }
                }
            }
            assert(no_white_space(s) ==> no_white_space(last)) by {
                if no_white_space(s) {
                    assert(!is_white_space(s[s.len() - 1]));
                    assert forall|k: int| 0 <= k < last.len() implies !is_white_space(
                        #[trigger] last[k],
                    ) by {
                        if k < last.len() - 1 {
                            assert(last[k] == init.last()[k]);
                            assert(no_white_space(init[init.len() - 1]));
                        }
                    }
                }
            }
        }
    }
}

/// A text without `-` is a single piece.
proof fn lemma_split_no_dash(s: Seq<char>)
    requires
        !s.contains('-'),
    ensures
        split_dash(s) == seq![s],
    decreases s.len(),
{
    if s.len() == 0 {
        assert(s =~= Seq::<char>::empty());
        assert(split_dash(s) =~= seq![s]);
    } else {
        let t = s.drop_last();
        assert(!t.contains('-')) by {
            if t.contains('-') {
                let k = choose|k: int| 0 <= k < t.len() && t[k] == '-';
                assert(s[k] == '-');
            }
        }
        lemma_split_no_dash(t);
        assert(s.last() != '-') by {
            if s.last() == '-' {
                assert(s[s.len() - 1] == '-');
            }
        }
        assert(t.push(s.last()) =~= s);
        let init = split_dash(t);
        assert(init.len() == 1 && init.last() == t);
        assert(split_dash(s) == init.update(0, t.push(s.last())));
        assert(split_dash(s) =~= seq![s]);
    }
}

/// A text with a `-` has at least two pieces.
proof fn lemma_split_dash_count(s: Seq<char>)
    requires
        s.contains('-'),
    ensures
        split_dash(s).len() >= 2,
    decreases s.len(),
{
    let t = s.drop_last();
    lemma_split_parts(t);
    if s.last() != '-' {
        assert(t.contains('-')) by {
            let k = choose|k: int| 0 <= k < s.len() && s[k] == '-';
            assert(k < s.len() - 1);
            assert(t[k] == '-');
        }
        lemma_split_dash_count(t);
    }
}

/// Splitting at a `-` splits the two sides apart.
proof fn lemma_split_concat(x: Seq<char>, y: Seq<char>)
    ensures
        split_dash(x + seq!['-'] + y) == split_dash(x) + split_dash(y),
    decreases y.len(),
{
    let s = x + seq!['-'] + y;
    lemma_split_parts(x);
    lemma_split_parts(y);
    if y.len() == 0 {
        assert(s.drop_last() =~= x);
        assert(split_dash(y) =~= seq![Seq::<char>::empty()]);
        assert(split_dash(s) =~= split_dash(x) + split_dash(y));
    } else {
        let y2 = y.drop_last();
        lemma_split_concat(x, y2);
        lemma_split_parts(y2);
        assert(s.drop_last() =~= x + seq!['-'] + y2);
        assert(s.last() == y.last());
        assert(split_dash(s) =~= split_dash(x) + split_dash(y));
    }
}

/// The pieces of `a-b` for `a`, `b` without `-`.
proof fn lemma_split_two(a: Seq<char>, b: Seq<char>)
    requires
        !a.contains('-'),
        !b.contains('-'),
    ensures
        split_dash(a + seq!['-'] + b) == seq![a, b],
{
    lemma_split_concat(a, b);
    lemma_split_no_dash(a);
    lemma_split_no_dash(b);
    assert(seq![a] + seq![b] =~= seq![a, b]);
}

/// The pieces of `a-b-c` for `a`, `b`, `c` without `-`.
proof fn lemma_split_three(a: Seq<char>, b: Seq<char>, c: Seq<char>)
    requires
        !a.contains('-'),
        !b.contains('-'),
        !c.contains('-'),
    ensures
        split_dash(a + seq!['-'] + b + seq!['-'] + c) == seq![a, b, c],
{
    lemma_split_concat(a + seq!['-'] + b, c);
    lemma_split_two(a, b);
    lemma_split_no_dash(c);
    assert(seq![a, b] + seq![c] =~= seq![a, b, c]);
}

// ---------------------------------------------------------------------------
// Case of tags
// ---------------------------------------------------------------------------

proof fn lemma_lower_each_ascii(s: Seq<char>)
    requires
        is_ascii_seq(s),
    ensures
        lower_each(s) == s.map_values(|c: char| ascii_lower(c)),
    decreases s.len(),
{
    if s.len() > 0 {
        let t = s.drop_last();
        assert forall|k: int| 0 <= k < t.len() implies #[trigger] t[k] <= '\u{7f}' by {
            assert(t[k] == s[k]);
        }
        lemma_lower_each_ascii(t);
        assert(s[s.len() - 1] <= '\u{7f}');
        assert(char_lowercase(s.last()) == seq![ascii_lower(s.last())]);
        assert(lower_each(s) =~= s.map_values(|c: char| ascii_lower(c)));
    } else {
        assert(lower_each(s) =~= s.map_values(|c: char| ascii_lower(c)));
    }
}

/// Capitalizing ASCII text: the first letter up, the rest down; ASCII, `-`
/// and white space are kept, and capitalizing again changes nothing.
proof fn lemma_capitalize_ascii(p: Seq<char>)
    requires
        is_ascii_seq(p),
    ensures
        is_ascii_seq(capitalize_spec(p)),
        capitalize_spec(p).contains('-') == p.contains('-'),
        no_white_space(p) ==> no_white_space(capitalize_spec(p)),
        capitalize_spec(capitalize_spec(p)) == capitalize_spec(p),
{
    let c = capitalize_spec(p);
    if p.len() > 0 {
        let rest = p.drop_first();
        assert forall|k: int| 0 <= k < rest.len() implies #[trigger] rest[k] <= '\u{7f}' by {
            assert(rest[k] == p[k + 1]);
        }
        lemma_lower_each_ascii(rest);
        assert(p[0] <= '\u{7f}');
        lemma_ascii_upper_char(p[0]);
        assert(char_uppercase(p[0]) == seq![ascii_upper(p[0])]);
        assert(c.len() == p.len());
        assert(c[0] == ascii_upper(p[0]));
        assert forall|k: int| 1 <= k < p.len() implies #[trigger] c[k] == ascii_lower(p[k]) by {
            assert(c[k] == rest.map_values(|c: char| ascii_lower(c))[k - 1]);
            assert(rest[k - 1] == p[k]);
        }
        assert forall|k: int| 0 <= k < c.len() implies #[trigger] c[k] <= '\u{7f}' && (c[k] == '-')
            == (p[k] == '-') && is_white_space(c[k]) == is_white_space(p[k]) by {
            if k > 0 {
                assert(p[k] <= '\u{7f}');
                lemma_ascii_lower_char(p[k]);
            }
        }
        if c.contains('-') {
            let k = choose|k: int| 0 <= k < c.len() && c[k] == '-';
            assert(p[k] == '-');
        }
        if p.contains('-') {
            let k = choose|k: int| 0 <= k < p.len() && p[k] == '-';
            assert(c[k] == '-');
        }
        // capitalizing again
        let rest2 = c.drop_first();
        assert forall|k: int| 0 <= k < rest2.len() implies #[trigger] rest2[k] <= '\u{7f}' by {
            assert(rest2[k] == c[k + 1]);
        }
        lemma_lower_each_ascii(rest2);
        assert(c[0] <= '\u{7f}');
        assert(char_uppercase(c[0]) == seq![ascii_upper(c[0])]);
        assert forall|k: int| 1 <= k < p.len() implies ascii_lower(#[trigger] c[k]) == c[k] by {
            assert(p[k] <= '\u{7f}');
            lemma_ascii_lower_char(p[k]);
        }
        assert(capitalize_spec(c) =~= c);
    } else {
        assert(c =~= p);
    }
}

/// Facts about the case normalization of an ASCII tag holding a `-`.
proof fn lemma_bcp47_case_ascii(s: Seq<char>)
    requires
        is_ascii_seq(s),
        s.contains('-'),
    ensures
        is_ascii_seq(bcp47_case(s)),
        bcp47_case(s).contains('-'),
        no_white_space(s) ==> no_white_space(bcp47_case(s)),
        bcp47_case(bcp47_case(s)) == bcp47_case(s),
{
    let parts = split_dash(s);
    lemma_split_parts(s);
    lemma_split_dash_count(s);
    let o = bcp47_case(s);
    if parts.len() == 2 {
        let a = lowercase(parts[0]);
        let b = uppercase(parts[1]);
        lemma_lowercase_ascii(parts[0]);
        lemma_uppercase_ascii(parts[1]);
        assert(o == a + seq!['-'] + b);
        lemma_split_two(a, b);
        assert(o[a.len() as int] == '-');
        assert forall|k: int| 0 <= k < o.len() implies #[trigger] o[k] <= '\u{7f}' by {
            if k < a.len() {
                assert(o[k] == a[k]);
            } else if k > a.len() {
                assert(o[k] == b[k - a.len() - 1]);
            }
        }
        if no_white_space(s) {
            assert forall|k: int| 0 <= k < o.len() implies !is_white_space(#[trigger] o[k]) by {
                if k < a.len() {
                    assert(o[k] == a[k]);
                } else if k > a.len() {
                    assert(o[k] == b[k - a.len() - 1]);
                }
            }
        }
    } else if parts.len() == 3 {
        let a = lowercase(parts[0]);
        let b = capitalize_spec(parts[1]);
        let c = uppercase(parts[2]);
        lemma_lowercase_ascii(parts[0]);
        lemma_capitalize_ascii(parts[1]);
        lemma_uppercase_ascii(parts[2]);
        assert(o == a + seq!['-'] + b + seq!['-'] + c);
        lemma_split_three(a, b, c);
        assert(o[a.len() as int] == '-');
        let ab = a + seq!['-'] + b;
        assert forall|k: int| 0 <= k < o.len() implies #[trigger] o[k] <= '\u{7f}' && (
        no_white_space(s) ==> !is_white_space(o[k])) by {
            if k < a.len() {
                assert(o[k] == a[k]);
            } else if a.len() < k < ab.len() {
                assert(o[k] == b[k - a.len() - 1]);
            } else if k > ab.len() {
                assert(o[k] == c[k - ab.len() - 1]);
            }
        }
    } else {
        assert(o == s);
    }
}

// ---------------------------------------------------------------------------
// Shapes of the table entries
// ---------------------------------------------------------------------------

/// Two lower-case ASCII letters.
pub open spec fn iso_code_shape(k: Seq<char>) -> bool {
    &&& k.len() == 2
    &&& 'a' <= k[0] <= 'z'
    &&& 'a' <= k[1] <= 'z'
}

/// Two lower-case letters, `-`, then upper-case letters or digits.
pub open spec fn tag_shape(t: Seq<char>) -> bool {
    &&& t.len() >= 4
    &&& 'a' <= t[0] <= 'z'
    &&& 'a' <= t[1] <= 'z'
    &&& t[2] == '-'
    &&& forall|i: int| 3 <= i < t.len() ==> ('A' <= #[trigger] t[i] <= 'Z' || '0' <= t[i] <= '9')
}

proof fn lemma_iso_code_shape(k: Seq<char>)
    requires
        iso_code_shape(k),
    ensures
        is_ascii_seq(k),
        !k.contains('-'),
        no_white_space(k),
        lowercase(k) == k,
{
    assert(is_ascii_seq(k));
    lemma_lowercase_ascii(k);
    assert(lowercase(k) =~= k);
}

proof fn lemma_tag_shape(t: Seq<char>)
    requires
        tag_shape(t),
    ensures
        is_ascii_seq(t),
        t.contains('-'),
        no_white_space(t),
        bcp47_case(t) == t,
{
    let a = t.take(2);
    let b = t.skip(3);
    assert(t =~= a + seq!['-'] + b);
    assert(is_ascii_seq(t)) by {
        assert forall|i: int| 0 <= i < t.len() implies #[trigger] t[i] <= '\u{7f}' by {
            if i >= 3 {
                assert('A' <= t[i] <= 'Z' || '0' <= t[i] <= '9');
            }
        }
    }
    assert(no_white_space(t)) by {
        assert forall|i: int| 0 <= i < t.len() implies !is_white_space(#[trigger] t[i]) by {
            if i >= 3 {
                assert('A' <= t[i] <= 'Z' || '0' <= t[i] <= '9');
            }
        }
    }
    assert(t[2] == '-');
    assert(!a.contains('-')) by {
        if a.contains('-') {
            let k = choose|k: int| 0 <= k < a.len() && a[k] == '-';
            assert(a[k] == t[k]);
        }
    }
    assert(!b.contains('-')) by {
        if b.contains('-') {
            let k = choose|k: int| 0 <= k < b.len() && b[k] == '-';
            assert(b[k] == t[k + 3]);
            assert('A' <= t[k + 3] <= 'Z' || '0' <= t[k + 3] <= '9');
        }
    }
    lemma_split_two(a, b);
    assert(is_ascii_seq(a));
    assert(is_ascii_seq(b)) by {
        assert forall|i: int| 0 <= i < b.len() implies #[trigger] b[i] <= '\u{7f}' by {
            assert(b[i] == t[i + 3]);
        }
    }
    lemma_lowercase_ascii(a);
    lemma_uppercase_ascii(b);
    assert(lowercase(a) =~= a);
    assert forall|i: int| 0 <= i < b.len() implies #[trigger] uppercase(b)[i] == b[i] by {
        assert(b[i] == t[i + 3]);
        assert('A' <= t[i + 3] <= 'Z' || '0' <= t[i + 3] <= '9');
    }
    assert(uppercase(b) =~= b);
}

/// Every entry of the table has the expected shape.
proof fn lemma_iso_table_shapes()
    ensures
        forall|i: int|
            0 <= i < iso_bcp47_table().len() ==> {
                &&& iso_code_shape((#[trigger] iso_bcp47_table()[i]).0)
                &&& tag_shape(iso_bcp47_table()[i].1)
            },
{
    reveal_strlit("af");
    reveal_strlit("af-ZA");
    reveal_strlit("am");
    reveal_strlit("am-ET");
    reveal_strlit("ar");
    reveal_strlit("ar-SA");
    reveal_strlit("bg");
    reveal_strlit("bg-BG");
    reveal_strlit("bn");
    reveal_strlit("bn-IN");
    reveal_strlit("bs");
    reveal_strlit("bs-BA");
    reveal_strlit("ca");
    reveal_strlit("ca-ES");
    reveal_strlit("cs");
    reveal_strlit("cs-CZ");
    reveal_strlit("cy");
    reveal_strlit("cy-GB");
    reveal_strlit("da");
    reveal_strlit("da-DK");
    reveal_strlit("de");
    reveal_strlit("de-DE");
    reveal_strlit("el");
    reveal_strlit("el-GR");
    reveal_strlit("en");
    reveal_strlit("en-US");
    reveal_strlit("es");
    reveal_strlit("es-ES");
    reveal_strlit("et");
    reveal_strlit("et-EE");
    reveal_strlit("eu");
    reveal_strlit("eu-ES");
    reveal_strlit("fa");
    reveal_strlit("fa-IR");
    reveal_strlit("fi");
    reveal_strlit("fi-FI");
    reveal_strlit("fr");
    reveal_strlit("fr-FR");
    reveal_strlit("ga");
    reveal_strlit("ga-IE");
    reveal_strlit("gl");
    reveal_strlit("gl-ES");
    reveal_strlit("gu");
    reveal_strlit("gu-IN");
    reveal_strlit("he");
    reveal_strlit("he-IL");
    reveal_strlit("hi");
    reveal_strlit("hi-IN");
    reveal_strlit("hr");
    reveal_strlit("hr-HR");
    reveal_strlit("hu");
    reveal_strlit("hu-HU");
    reveal_strlit("id");
    reveal_strlit("id-ID");
    reveal_strlit("is");
    reveal_strlit("is-IS");
    reveal_strlit("it");
    reveal_strlit("it-IT");
    reveal_strlit("ja");
    reveal_strlit("ja-JP");
    reveal_strlit("kn");
    reveal_strlit("kn-IN");
    reveal_strlit("ko");
    reveal_strlit("ko-KR");
    reveal_strlit("lt");
    reveal_strlit("lt-LT");
    reveal_strlit("lv");
    reveal_strlit("lv-LV");
    reveal_strlit("mk");
    reveal_strlit("mk-MK");
    reveal_strlit("ml");
    reveal_strlit("ml-IN");
    reveal_strlit("mr");
    reveal_strlit("mr-IN");
    reveal_strlit("ms");
    reveal_strlit("ms-MY");
    reveal_strlit("mt");
    reveal_strlit("mt-MT");
    reveal_strlit("nb");
    reveal_strlit("nb-NO");
    reveal_strlit("nl");
    reveal_strlit("nl-NL");
    reveal_strlit("nn");
    reveal_strlit("nn-NO");
    reveal_strlit("no");
    reveal_strlit("pa");
    reveal_strlit("pa-IN");
    reveal_strlit("pl");
    reveal_strlit("pl-PL");
    reveal_strlit("pt");
    reveal_strlit("pt-BR");
    reveal_strlit("ro");
    reveal_strlit("ro-RO");
    reveal_strlit("ru");
    reveal_strlit("ru-RU");
    reveal_strlit("sk");
    reveal_strlit("sk-SK");
    reveal_strlit("sl");
    reveal_strlit("sl-SI");
    reveal_strlit("sq");
    reveal_strlit("sq-AL");
    reveal_strlit("sr");
    reveal_strlit("sr-RS");
    reveal_strlit("sv");
    reveal_strlit("sv-SE");
    reveal_strlit("sw");
    reveal_strlit("sw-KE");
    reveal_strlit("ta");
    reveal_strlit("ta-IN");
    reveal_strlit("te");
    reveal_strlit("te-IN");
    reveal_strlit("th");
    reveal_strlit("th-TH");
    reveal_strlit("tr");
    reveal_strlit("tr-TR");
    reveal_strlit("uk");
    reveal_strlit("uk-UA");
    reveal_strlit("ur");
    reveal_strlit("ur-PK");
    reveal_strlit("vi");
    reveal_strlit("vi-VN");
    reveal_strlit("yi");
    reveal_strlit("yi-001");
    reveal_strlit("zh");
    reveal_strlit("zh-CN");
    let t = iso_bcp47_table();
    assert(t.len() == 63);
    assert(iso_code_shape(t[0].0) && tag_shape(t[0].1));
    assert(iso_code_shape(t[1].0) && tag_shape(t[1].1));
    assert(iso_code_shape(t[2].0) && tag_shape(t[2].1));
    assert(iso_code_shape(t[3].0) && tag_shape(t[3].1));
    assert(iso_code_shape(t[4].0) && tag_shape(t[4].1));
    assert(iso_code_shape(t[5].0) && tag_shape(t[5].1));
    assert(iso_code_shape(t[6].0) && tag_shape(t[6].1));
    assert(iso_code_shape(t[7].0) && tag_shape(t[7].1));
    assert(iso_code_shape(t[8].0) && tag_shape(t[8].1));
    assert(iso_code_shape(t[9].0) && tag_shape(t[9].1));
    assert(iso_code_shape(t[10].0) && tag_shape(t[10].1));
    assert(iso_code_shape(t[11].0) && tag_shape(t[11].1));
    assert(iso_code_shape(t[12].0) && tag_shape(t[12].1));
    assert(iso_code_shape(t[13].0) && tag_shape(t[13].1));
    assert(iso_code_shape(t[14].0) && tag_shape(t[14].1));
    assert(iso_code_shape(t[15].0) && tag_shape(t[15].1));
    assert(iso_code_shape(t[16].0) && tag_shape(t[16].1));
    assert(iso_code_shape(t[17].0) && tag_shape(t[17].1));
    assert(iso_code_shape(t[18].0) && tag_shape(t[18].1));
    assert(iso_code_shape(t[19].0) && tag_shape(t[19].1));
    assert(iso_code_shape(t[20].0) && tag_shape(t[20].1));
    assert(iso_code_shape(t[21].0) && tag_shape(t[21].1));
    assert(iso_code_shape(t[22].0) && tag_shape(t[22].1));
    assert(iso_code_shape(t[23].0) && tag_shape(t[23].1));
    assert(iso_code_shape(t[24].0) && tag_shape(t[24].1));
    assert(iso_code_shape(t[25].0) && tag_shape(t[25].1));
    assert(iso_code_shape(t[26].0) && tag_shape(t[26].1));
    assert(iso_code_shape(t[27].0) && tag_shape(t[27].1));
    assert(iso_code_shape(t[28].0) && tag_shape(t[28].1));
    assert(iso_code_shape(t[29].0) && tag_shape(t[29].1));
    assert(iso_code_shape(t[30].0) && tag_shape(t[30].1));
    assert(iso_code_shape(t[31].0) && tag_shape(t[31].1));
    assert(iso_code_shape(t[32].0) && tag_shape(t[32].1));
    assert(iso_code_shape(t[33].0) && tag_shape(t[33].1));
    assert(iso_code_shape(t[34].0) && tag_shape(t[34].1));
    assert(iso_code_shape(t[35].0) && tag_shape(t[35].1));
    assert(iso_code_shape(t[36].0) && tag_shape(t[36].1));
    assert(iso_code_shape(t[37].0) && tag_shape(t[37].1));
    assert(iso_code_shape(t[38].0) && tag_shape(t[38].1));
    assert(iso_code_shape(t[39].0) && tag_shape(t[39].1));
    assert(iso_code_shape(t[40].0) && tag_shape(t[40].1));
    assert(iso_code_shape(t[41].0) && tag_shape(t[41].1));
    assert(iso_code_shape(t[42].0) && tag_shape(t[42].1));
    assert(iso_code_shape(t[43].0) && tag_shape(t[43].1));
    assert(iso_code_shape(t[44].0) && tag_shape(t[44].1));
    assert(iso_code_shape(t[45].0) && tag_shape(t[45].1));
    assert(iso_code_shape(t[46].0) && tag_shape(t[46].1));
    assert(iso_code_shape(t[47].0) && tag_shape(t[47].1));
    assert(iso_code_shape(t[48].0) && tag_shape(t[48].1));
    assert(iso_code_shape(t[49].0) && tag_shape(t[49].1));
    assert(iso_code_shape(t[50].0) && tag_shape(t[50].1));
    assert(iso_code_shape(t[51].0) && tag_shape(t[51].1));
    assert(iso_code_shape(t[52].0) && tag_shape(t[52].1));
    assert(iso_code_shape(t[53].0) && tag_shape(t[53].1));
    assert(iso_code_shape(t[54].0) && tag_shape(t[54].1));
    assert(iso_code_shape(t[55].0) && tag_shape(t[55].1));
    assert(iso_code_shape(t[56].0) && tag_shape(t[56].1));
    assert(iso_code_shape(t[57].0) && tag_shape(t[57].1));
    assert(iso_code_shape(t[58].0) && tag_shape(t[58].1));
    assert(iso_code_shape(t[59].0) && tag_shape(t[59].1));
    assert(iso_code_shape(t[60].0) && tag_shape(t[60].1));
    assert(iso_code_shape(t[61].0) && tag_shape(t[61].1));
    assert(iso_code_shape(t[62].0) && tag_shape(t[62].1));
}

/// Every entry of the table has the expected shape.
proof fn lemma_variant_table_shapes()
    ensures
        forall|i: int|
            0 <= i < bcp47_variant_table().len() ==> {
                &&& tag_shape((#[trigger] bcp47_variant_table()[i]).0)
                &&& iso_code_shape(bcp47_variant_table()[i].1)
            },
{
    reveal_strlit("ar");
    reveal_strlit("ar-AE");
    reveal_strlit("ar-EG");
    reveal_strlit("ar-MA");
    reveal_strlit("de");
    reveal_strlit("de-AT");
    reveal_strlit("de-CH");
    reveal_strlit("en");
    reveal_strlit("en-AU");
    reveal_strlit("en-CA");
    reveal_strlit("en-GB");
    reveal_strlit("en-IN");
    reveal_strlit("es");
    reveal_strlit("es-AR");
    reveal_strlit("es-MX");
    reveal_strlit("fr");
    reveal_strlit("fr-BE");
    reveal_strlit("fr-CA");
    reveal_strlit("pt");
    reveal_strlit("pt-PT");
    reveal_strlit("zh");
    reveal_strlit("zh-HK");
    reveal_strlit("zh-TW");
    let t = bcp47_variant_table();
    assert(t.len() == 16);
    assert(tag_shape(t[0].0) && iso_code_shape(t[0].1));
    assert(tag_shape(t[1].0) && iso_code_shape(t[1].1));
    assert(tag_shape(t[2].0) && iso_code_shape(t[2].1));
    assert(tag_shape(t[3].0) && iso_code_shape(t[3].1));
    assert(tag_shape(t[4].0) && iso_code_shape(t[4].1));
    assert(tag_shape(t[5].0) && iso_code_shape(t[5].1));
    assert(tag_shape(t[6].0) && iso_code_shape(t[6].1));
    assert(tag_shape(t[7].0) && iso_code_shape(t[7].1));
    assert(tag_shape(t[8].0) && iso_code_shape(t[8].1));
    assert(tag_shape(t[9].0) && iso_code_shape(t[9].1));
    assert(tag_shape(t[10].0) && iso_code_shape(t[10].1));
    assert(tag_shape(t[11].0) && iso_code_shape(t[11].1));
    assert(tag_shape(t[12].0) && iso_code_shape(t[12].1));
    assert(tag_shape(t[13].0) && iso_code_shape(t[13].1));
    assert(tag_shape(t[14].0) && iso_code_shape(t[14].1));
    assert(tag_shape(t[15].0) && iso_code_shape(t[15].1));
}

// ---------------------------------------------------------------------------
// Lookups give table entries
// ---------------------------------------------------------------------------

/// A known ISO code maps to a well-shaped tag.
proof fn lemma_iso_to_bcp47_shape(iso: Seq<char>)
    ensures
        iso_to_bcp47(iso) matches Some(tag) ==> tag_shape(tag),
{
    lemma_iso_table_shapes();
    lemma_lookup_first_is_entry(iso_bcp47_table(), iso);
    if let Some(tag) = iso_to_bcp47(iso) {
        let i = choose|i: int|
            0 <= i < iso_bcp47_table().len()
            && #[trigger] iso_bcp47_table()[i].1 == tag;
        assert(tag_shape(iso_bcp47_table()[i].1));
    }
}

/// A known tag maps to a well-shaped ISO code.
proof fn lemma_bcp47_to_iso_shape(tag: Seq<char>)
    ensures
        bcp47_to_iso(tag) matches Some(iso) ==> iso_code_shape(iso),
{
    lemma_iso_table_shapes();
    lemma_variant_table_shapes();
    lemma_lookup_first_is_entry(bcp47_variant_table(), tag);
    lemma_lookup_last_is_entry(iso_bcp47_table(), tag);
    if let Some(iso) = lookup_first(bcp47_variant_table(), tag) {
        let i = choose|i: int|
            0 <= i < bcp47_variant_table().len()
            && #[trigger] bcp47_variant_table()[i].1 == iso;
        assert(iso_code_shape(bcp47_variant_table()[i].1));
    } else if let Some(iso) = lookup_last_by_value(iso_bcp47_table(), tag) {
        let i = choose|i: int|
            0 <= i < iso_bcp47_table().len()
            && #[trigger] iso_bcp47_table()[i].0 == iso;
        assert(iso_code_shape(iso_bcp47_table()[i].0));
    }
}

// ---------------------------------------------------------------------------
// The laws
// ---------------------------------------------------------------------------

/// What a normalized ASCII code looks like: ASCII; for an ISO provider
/// without `-` and already lower case; for a BCP-47 provider with a `-`
/// and already in tag case; free of white space when the trimmed input was.
proof fn lemma_normalize_ascii(code: Seq<char>, provider: Seq<char>)
    requires
        is_ascii_seq(trim(code)),
    ensures
        is_ascii_seq(normalize_spec(code, provider)),
        provider_format(provider) == LanguageFormat::Iso639_1 ==> {
            &&& !normalize_spec(code, provider).contains('-')
            &&& lowercase(normalize_spec(code, provider)) == normalize_spec(code, provider)
        },
        provider_format(provider) == LanguageFormat::Bcp47 ==> {
            &&& normalize_spec(code, provider).contains('-')
            &&& bcp47_case(normalize_spec(code, provider)) == normalize_spec(code, provider)
        },
        no_white_space(trim(code)) ==> no_white_space(normalize_spec(code, provider)),
{
    let c = trim(code);
    let out = normalize_spec(code, provider);
    lemma_lowercase_ascii(c);
    match provider_format(provider) {
        LanguageFormat::Bcp47 => {
            if c.contains('-') {
                lemma_bcp47_case_ascii(c);
            } else {
                let iso = lowercase(c);
                lemma_iso_to_bcp47_shape(iso);
                if let Some(tag) = iso_to_bcp47(iso) {
                    lemma_tag_shape(tag);
                } else {
                    let up = uppercase(iso);
                    lemma_lowercase_ascii(iso);
                    lemma_uppercase_ascii(iso);
                    lemma_uppercase_ascii(up);
                    assert(out == iso + seq!['-'] + up);
                    lemma_split_two(iso, up);
                    assert(out[iso.len() as int] == '-');
                    assert forall|k: int| 0 <= k < out.len() implies #[trigger] out[k] <= '\u{7f}' && (
                    no_white_space(c) ==> !is_white_space(out[k])) by {
                        if k < iso.len() {
                            assert(out[k] == iso[k]);
                        } else if k > iso.len() {
                            assert(out[k] == up[k - iso.len() - 1]);
                        }
                    }
                }
            }
        },
        LanguageFormat::Iso639_1 => {
            if c.contains('-') {
                let n = bcp47_case(c);
                lemma_bcp47_to_iso_shape(n);
                if let Some(iso) = bcp47_to_iso(n) {
                    lemma_iso_code_shape(iso);
                } else {
                    lemma_split_parts(c);
                    let first = split_dash(c)[0];
                    lemma_lowercase_ascii(first);
                }
            }
        },
    }
}

/// Law: normalizing an ASCII code puts it into the format its provider
/// expects: a code for an ISO 639-1 provider holds no `-`, a code for a
/// BCP-47 provider holds one.
pub proof fn law_normalize_gives_provider_format(code: Seq<char>, provider: Seq<char>)
    requires
        is_ascii_seq(trim(code)),
    ensures
        provider_format(provider) == LanguageFormat::Iso639_1 ==> !normalize_spec(
            code,
            provider,
        ).contains('-'),
        provider_format(provider) == LanguageFormat::Bcp47 ==> normalize_spec(
            code,
            provider,
        ).contains('-'),
{
    lemma_normalize_ascii(code, provider);
}

/// Law: normalization is idempotent on ASCII codes without inner white
/// space: normalizing a normalized code for the same provider gives it back.
pub proof fn law_normalize_idempotent(code: Seq<char>, provider: Seq<char>)
    requires
        is_ascii_seq(trim(code)),
        no_white_space(trim(code)),
    ensures
        normalize_spec(normalize_spec(code, provider), provider) == normalize_spec(code, provider),
{
    let out = normalize_spec(code, provider);
    lemma_normalize_ascii(code, provider);
    lemma_trim_no_white_space(out);
}

/// Law: a code already in the form its provider expects passes through
/// unchanged: for a BCP-47 provider a tag (it holds a `-`) already in tag
/// case, for an ISO 639-1 provider a lower-case code without `-`, in both
/// cases without surrounding white space.
pub proof fn law_normalize_passthrough(code: Seq<char>, provider: Seq<char>)
    requires
        trim(code) == code,
        provider_format(provider) == LanguageFormat::Bcp47 ==> code.contains('-') && bcp47_case(
            code,
        ) == code,
        provider_format(provider) == LanguageFormat::Iso639_1 ==> !code.contains('-') && lowercase(
            code,
        ) == code,
    ensures
        normalize_spec(code, provider) == code,
{
}

/// Every tag of the table begins with its ISO code, but for Norwegian,
/// whose tag is Bokmål's.
proof fn lemma_iso_table_prefixes()
    ensures
        forall|j: int|
            0 <= j < iso_bcp47_table().len() && j != 43 ==> (#[trigger] iso_bcp47_table()[j]).1.take(
                2,
            ) == iso_bcp47_table()[j].0,
        iso_bcp47_table()[43] == ("no"@, "nb-NO"@),
        iso_bcp47_table()[44] == ("nb"@, "nb-NO"@),
        iso_bcp47_table().len() == 63,
{
    reveal_strlit("af");
    reveal_strlit("af-ZA");
    reveal_strlit("am");
    reveal_strlit("am-ET");
    reveal_strlit("ar");
    reveal_strlit("ar-SA");
    reveal_strlit("bg");
    reveal_strlit("bg-BG");
    reveal_strlit("bn");
    reveal_strlit("bn-IN");
    reveal_strlit("bs");
    reveal_strlit("bs-BA");
    reveal_strlit("ca");
    reveal_strlit("ca-ES");
    reveal_strlit("cs");
    reveal_strlit("cs-CZ");
    reveal_strlit("cy");
    reveal_strlit("cy-GB");
    reveal_strlit("da");
    reveal_strlit("da-DK");
    reveal_strlit("de");
    reveal_strlit("de-DE");
    reveal_strlit("el");
    reveal_strlit("el-GR");
    reveal_strlit("en");
    reveal_strlit("en-US");
    reveal_strlit("es");
    reveal_strlit("es-ES");
    reveal_strlit("et");
    reveal_strlit("et-EE");
    reveal_strlit("eu");
    reveal_strlit("eu-ES");
    reveal_strlit("fa");
    reveal_strlit("fa-IR");
    reveal_strlit("fi");
    reveal_strlit("fi-FI");
    reveal_strlit("fr");
    reveal_strlit("fr-FR");
    reveal_strlit("ga");
    reveal_strlit("ga-IE");
    reveal_strlit("gl");
    reveal_strlit("gl-ES");
    reveal_strlit("gu");
    reveal_strlit("gu-IN");
    reveal_strlit("he");
    reveal_strlit("he-IL");
    reveal_strlit("hi");
    reveal_strlit("hi-IN");
    reveal_strlit("hr");
    reveal_strlit("hr-HR");
    reveal_strlit("hu");
    reveal_strlit("hu-HU");
    reveal_strlit("id");
    reveal_strlit("id-ID");
    reveal_strlit("is");
    reveal_strlit("is-IS");
    reveal_strlit("it");
    reveal_strlit("it-IT");
    reveal_strlit("ja");
    reveal_strlit("ja-JP");
    reveal_strlit("kn");
    reveal_strlit("kn-IN");
    reveal_strlit("ko");
    reveal_strlit("ko-KR");
    reveal_strlit("lt");
    reveal_strlit("lt-LT");
    reveal_strlit("lv");
    reveal_strlit("lv-LV");
    reveal_strlit("mk");
    reveal_strlit("mk-MK");
    reveal_strlit("ml");
    reveal_strlit("ml-IN");
    reveal_strlit("mr");
    reveal_strlit("mr-IN");
    reveal_strlit("ms");
    reveal_strlit("ms-MY");
    reveal_strlit("mt");
    reveal_strlit("mt-MT");
    reveal_strlit("nb");
    reveal_strlit("nb-NO");
    reveal_strlit("nl");
    reveal_strlit("nl-NL");
    reveal_strlit("nn");
    reveal_strlit("nn-NO");
    reveal_strlit("no");
    reveal_strlit("pa");
    reveal_strlit("pa-IN");
    reveal_strlit("pl");
    reveal_strlit("pl-PL");
    reveal_strlit("pt");
    reveal_strlit("pt-BR");
    reveal_strlit("ro");
    reveal_strlit("ro-RO");
    reveal_strlit("ru");
    reveal_strlit("ru-RU");
    reveal_strlit("sk");
    reveal_strlit("sk-SK");
    reveal_strlit("sl");
    reveal_strlit("sl-SI");
    reveal_strlit("sq");
    reveal_strlit("sq-AL");
    reveal_strlit("sr");
    reveal_strlit("sr-RS");
    reveal_strlit("sv");
    reveal_strlit("sv-SE");
    reveal_strlit("sw");
    reveal_strlit("sw-KE");
    reveal_strlit("ta");
    reveal_strlit("ta-IN");
    reveal_strlit("te");
    reveal_strlit("te-IN");
    reveal_strlit("th");
    reveal_strlit("th-TH");
    reveal_strlit("tr");
    reveal_strlit("tr-TR");
    reveal_strlit("uk");
    reveal_strlit("uk-UA");
    reveal_strlit("ur");
    reveal_strlit("ur-PK");
    reveal_strlit("vi");
    reveal_strlit("vi-VN");
    reveal_strlit("yi");
    reveal_strlit("yi-001");
    reveal_strlit("zh");
    reveal_strlit("zh-CN");
    let t = iso_bcp47_table();
    assert(t[0].1.take(2) =~= t[0].0);
    assert(t[1].1.take(2) =~= t[1].0);
    assert(t[2].1.take(2) =~= t[2].0);
    assert(t[3].1.take(2) =~= t[3].0);
    assert(t[4].1.take(2) =~= t[4].0);
    assert(t[5].1.take(2) =~= t[5].0);
    assert(t[6].1.take(2) =~= t[6].0);
    assert(t[7].1.take(2) =~= t[7].0);
    assert(t[8].1.take(2) =~= t[8].0);
    assert(t[9].1.take(2) =~= t[9].0);
    assert(t[10].1.take(2) =~= t[10].0);
    assert(t[11].1.take(2) =~= t[11].0);
    assert(t[12].1.take(2) =~= t[12].0);
    assert(t[13].1.take(2) =~= t[13].0);
    assert(t[14].1.take(2) =~= t[14].0);
    assert(t[15].1.take(2) =~= t[15].0);
    assert(t[16].1.take(2) =~= t[16].0);
    assert(t[17].1.take(2) =~= t[17].0);
    assert(t[18].1.take(2) =~= t[18].0);
    assert(t[19].1.take(2) =~= t[19].0);
    assert(t[20].1.take(2) =~= t[20].0);
    assert(t[21].1.take(2) =~= t[21].0);
    assert(t[22].1.take(2) =~= t[22].0);
    assert(t[23].1.take(2) =~= t[23].0);
    assert(t[24].1.take(2) =~= t[24].0);
    assert(t[25].1.take(2) =~= t[25].0);
    assert(t[26].1.take(2) =~= t[26].0);
    assert(t[27].1.take(2) =~= t[27].0);
    assert(t[28].1.take(2) =~= t[28].0);
    assert(t[29].1.take(2) =~= t[29].0);
    assert(t[30].1.take(2) =~= t[30].0);
    assert(t[31].1.take(2) =~= t[31].0);
    assert(t[32].1.take(2) =~= t[32].0);
    assert(t[33].1.take(2) =~= t[33].0);
    assert(t[34].1.take(2) =~= t[34].0);
    assert(t[35].1.take(2) =~= t[35].0);
    assert(t[36].1.take(2) =~= t[36].0);
    assert(t[37].1.take(2) =~= t[37].0);
    assert(t[38].1.take(2) =~= t[38].0);
    assert(t[39].1.take(2) =~= t[39].0);
    assert(t[40].1.take(2) =~= t[40].0);
    assert(t[41].1.take(2) =~= t[41].0);
    assert(t[42].1.take(2) =~= t[42].0);
    assert(t[44].1.take(2) =~= t[44].0);
    assert(t[45].1.take(2) =~= t[45].0);
    assert(t[46].1.take(2) =~= t[46].0);
    assert(t[47].1.take(2) =~= t[47].0);
    assert(t[48].1.take(2) =~= t[48].0);
    assert(t[49].1.take(2) =~= t[49].0);
    assert(t[50].1.take(2) =~= t[50].0);
    assert(t[51].1.take(2) =~= t[51].0);
    assert(t[52].1.take(2) =~= t[52].0);
    assert(t[53].1.take(2) =~= t[53].0);
    assert(t[54].1.take(2) =~= t[54].0);
    assert(t[55].1.take(2) =~= t[55].0);
    assert(t[56].1.take(2) =~= t[56].0);
    assert(t[57].1.take(2) =~= t[57].0);
    assert(t[58].1.take(2) =~= t[58].0);
    assert(t[59].1.take(2) =~= t[59].0);
    assert(t[60].1.take(2) =~= t[60].0);
    assert(t[61].1.take(2) =~= t[61].0);
    assert(t[62].1.take(2) =~= t[62].0);
}

/// Every variant tag begins with the ISO code it names.
proof fn lemma_variant_table_prefixes()
    ensures
        forall|m: int|
            0 <= m < bcp47_variant_table().len() ==> (#[trigger] bcp47_variant_table()[m]).0.take(2)
                == bcp47_variant_table()[m].1,
{
    reveal_strlit("ar");
    reveal_strlit("ar-AE");
    reveal_strlit("ar-EG");
    reveal_strlit("ar-MA");
    reveal_strlit("de");
    reveal_strlit("de-AT");
    reveal_strlit("de-CH");
    reveal_strlit("en");
    reveal_strlit("en-AU");
    reveal_strlit("en-CA");
    reveal_strlit("en-GB");
    reveal_strlit("en-IN");
    reveal_strlit("es");
    reveal_strlit("es-AR");
    reveal_strlit("es-MX");
    reveal_strlit("fr");
    reveal_strlit("fr-BE");
    reveal_strlit("fr-CA");
    reveal_strlit("pt");
    reveal_strlit("pt-PT");
    reveal_strlit("zh");
    reveal_strlit("zh-HK");
    reveal_strlit("zh-TW");
    let t = bcp47_variant_table();
    assert(t[0].0.take(2) =~= t[0].1);
    assert(t[1].0.take(2) =~= t[1].1);
    assert(t[2].0.take(2) =~= t[2].1);
    assert(t[3].0.take(2) =~= t[3].1);
    assert(t[4].0.take(2) =~= t[4].1);
    assert(t[5].0.take(2) =~= t[5].1);
    assert(t[6].0.take(2) =~= t[6].1);
    assert(t[7].0.take(2) =~= t[7].1);
    assert(t[8].0.take(2) =~= t[8].1);
    assert(t[9].0.take(2) =~= t[9].1);
    assert(t[10].0.take(2) =~= t[10].1);
    assert(t[11].0.take(2) =~= t[11].1);
    assert(t[12].0.take(2) =~= t[12].1);
    assert(t[13].0.take(2) =~= t[13].1);
    assert(t[14].0.take(2) =~= t[14].1);
    assert(t[15].0.take(2) =~= t[15].1);
}

/// Law: an ISO 639-1 code of the table survives the round trip through its
/// BCP-47 tag: normalized for a BCP-47 provider and back for an ISO 639-1
/// provider, it comes back unchanged. Norwegian (`no`) is left out: it
/// shares its tag `nb-NO` with Bokmål, which the tag maps back to.
pub proof fn law_iso_round_trip(iso: Seq<char>, bcp47_provider: Seq<char>, iso_provider: Seq<char>)
    requires
        iso_to_bcp47(iso) is Some,
        iso != "no"@,
        provider_format(bcp47_provider) == LanguageFormat::Bcp47,
        provider_format(iso_provider) == LanguageFormat::Iso639_1,
    ensures
        normalize_spec(normalize_spec(iso, bcp47_provider), iso_provider) == iso,
{
    let t = iso_bcp47_table();
    let v = bcp47_variant_table();
    let tag = iso_to_bcp47(iso)->0;
    lemma_iso_table_shapes();
    lemma_iso_table_prefixes();
    lemma_variant_table_prefixes();
    lemma_lookup_first_found(t, iso);
    let i = choose|i: int| 0 <= i < t.len() && (#[trigger] t[i]).0 == iso && t[i].1 == tag;
    assert(i != 43);
    lemma_iso_code_shape(iso);
    lemma_trim_no_white_space(iso);
    assert(normalize_spec(iso, bcp47_provider) == tag);
    lemma_tag_shape(tag);
    lemma_trim_no_white_space(tag);
    assert(tag.take(2) == iso);
    lemma_lookup_first_found(v, tag);
    if let Some(x) = lookup_first(v, tag) {
        let m = choose|m: int| 0 <= m < v.len() && (#[trigger] v[m]).0 == tag && v[m].1 == x;
        assert(v[m].0.take(2) == v[m].1);
    } else {
        lemma_lookup_last_found(t, tag);
        assert(t[i].1 == tag);
        let k = lookup_last_by_value(t, tag)->0;
        let j = choose|j: int|
            0 <= j < t.len() && (#[trigger] t[j]).0 == k && t[j].1 == tag && forall|m: int|
                j < m < t.len() ==> t[m].1 != tag;
        if j == 43 {
            assert(t[44].1 == tag);
        }
        assert(t[j].1.take(2) == t[j].0);
    }
}

/// Law: a provider's default language is Hebrew in the provider's own
/// form: it is what normalizing `he` for the provider gives, normalizing it
/// again changes nothing, and it is a known code.
pub proof fn law_default_is_hebrew(provider: Seq<char>)
    ensures
        default_code(provider) == normalize_spec("he"@, provider),
        normalize_spec(default_code(provider), provider) == default_code(provider),
        is_known_spec(default_code(provider)),
{
    reveal_strlit("he");
    reveal_strlit("he-IL");
    reveal_strlit("en");
    let t = iso_bcp47_table();
    lemma_iso_table_shapes();
    assert(t[1] == ("he"@, "he-IL"@));
    assert(iso_code_shape(t[1].0) && tag_shape(t[1].1));
    lemma_iso_code_shape("he"@);
    lemma_tag_shape("he-IL"@);
    lemma_trim_no_white_space("he"@);
    lemma_trim_no_white_space("he-IL"@);
    assert(t[0].0 != "he"@) by {
        assert(t[0].0[0] == 'e');
    }
    assert(t.drop_first()[0] == t[1]);
    assert(t.len() > 0 && t[0].0 != "he"@);
    assert(lookup_first(t.drop_first(), "he"@) == Some("he-IL"@));
    assert(lookup_first(t, "he"@) == lookup_first(t.drop_first(), "he"@));
    assert(iso_to_bcp47("he"@) == Some("he-IL"@));
    lemma_lookup_last_found(t, "he-IL"@);
    assert(t[1].1 == "he-IL"@);
    assert(lookup_last_by_value(t, "he-IL"@) is Some);
    assert(bcp47_to_iso("he-IL"@) is Some);
}

/// Every ISO code a variant tag names is listed in the table.
proof fn lemma_variant_values_listed()
    ensures
        forall|m: int|
            0 <= m < bcp47_variant_table().len() ==> exists|i: int|
                0 <= i < iso_bcp47_table().len() && (#[trigger] iso_bcp47_table()[i]).0
                    == (#[trigger] bcp47_variant_table()[m]).1,
{
    reveal_strlit("ar");
    reveal_strlit("de");
    reveal_strlit("en");
    reveal_strlit("es");
    reveal_strlit("fr");
    reveal_strlit("pt");
    reveal_strlit("zh");
    let t = iso_bcp47_table();
    let v = bcp47_variant_table();
    assert(t[0].0 == v[0].1);
    assert(t[0].0 == v[1].1);
    assert(t[0].0 == v[2].1);
    assert(t[0].0 == v[3].1);
    assert(t[4].0 == v[4].1);
    assert(t[4].0 == v[5].1);
    assert(t[10].0 == v[6].1);
    assert(t[3].0 == v[7].1);
    assert(t[3].0 == v[8].1);
    assert(t[5].0 == v[9].1);
    assert(t[5].0 == v[10].1);
    assert(t[6].0 == v[11].1);
    assert(t[6].0 == v[12].1);
    assert(t[2].0 == v[13].1);
    assert(t[2].0 == v[14].1);
    assert(t[2].0 == v[15].1);
}

/// The tag made up for an unlisted code is not listed anywhere.
proof fn lemma_made_up_tag_unlisted(iso: Seq<char>)
    requires
        is_ascii_seq(iso),
        !iso.contains('-'),
        iso_to_bcp47(iso) is None,
    ensures
        bcp47_to_iso(iso + seq!['-'] + uppercase(iso)) is None,
{
    let t = iso_bcp47_table();
    let v = bcp47_variant_table();
    let up = uppercase(iso);
    let out = iso + seq!['-'] + up;
    lemma_uppercase_ascii(iso);
    lemma_iso_table_shapes();
    lemma_variant_table_shapes();
    lemma_iso_table_prefixes();
    lemma_variant_table_prefixes();
    lemma_variant_values_listed();
    lemma_lookup_first_found(t, iso);
    // a listed tag has `-` third, which makes `iso` two characters long
    assert forall|x: Seq<char>| tag_shape(x) && x == out implies x.take(2) == iso by {
        if iso.len() != 2 {
            if iso.len() > 2 {
                assert(out[2] == iso[2]);
                assert(iso.contains(iso[2]));
            } else {
                assert(out.len() == 2 * iso.len() + 1);
            }
        }
        assert(x.take(2) =~= iso);
    }
    lemma_lookup_first_found(v, out);
    if let Some(x) = lookup_first(v, out) {
        let m = choose|m: int| 0 <= m < v.len() && (#[trigger] v[m]).0 == out && v[m].1 == x;
        assert(tag_shape(v[m].0));
        assert(v[m].0.take(2) == v[m].1);
        let i = choose|i: int| 0 <= i < t.len() && (#[trigger] t[i]).0 == v[m].1;
        assert(t[i].0 == iso);
        assert(false);
    }
    lemma_lookup_last_found(t, out);
    if let Some(k) = lookup_last_by_value(t, out) {
        let j = choose|j: int|
            0 <= j < t.len() && (#[trigger] t[j]).0 == k && t[j].1 == out && forall|m: int|
                j < m < t.len() ==> t[m].1 != out;
        assert(tag_shape(t[j].1));
        if j == 43 {
            assert(t[44].1 == out);
        }
        assert(t[j].1.take(2) == t[j].0);
        assert(t[j].0 == iso);
        assert(false);
    }
}

/// Law: for a BCP-47 provider and then an ISO 639-1 provider, an ASCII code
/// without `-` comes back as its trimmed, lower-cased self: a listed code
/// by way of its tag, an unlisted one `xx` by way of `xx-XX`. Norwegian
/// (`no`) is left out: it shares its tag `nb-NO` with Bokmål, which the tag
/// maps back to.
pub proof fn law_round_trip(code: Seq<char>, bcp47_provider: Seq<char>, iso_provider: Seq<char>)
    requires
        is_ascii_seq(trim(code)),
        !trim(code).contains('-'),
        lowercase(trim(code)) != "no"@,
        provider_format(bcp47_provider) == LanguageFormat::Bcp47,
        provider_format(iso_provider) == LanguageFormat::Iso639_1,
    ensures
        normalize_spec(normalize_spec(code, bcp47_provider), iso_provider) == lowercase(trim(code)),
{
    let c = trim(code);
    let iso = lowercase(c);
    lemma_lowercase_ascii(c);
    let tag = normalize_spec(code, bcp47_provider);
    if iso_to_bcp47(iso) is Some {
        let t = iso_bcp47_table();
        lemma_iso_table_shapes();
        lemma_lookup_first_found(t, iso);
        let i = choose|i: int|
            0 <= i < t.len()
            && (#[trigger] t[i]).0 == iso
            && t[i].1 == iso_to_bcp47(iso)->0;
        lemma_iso_code_shape(iso);
        lemma_trim_no_white_space(iso);
        assert(normalize_spec(iso, bcp47_provider) == tag);
        law_iso_round_trip(iso, bcp47_provider, iso_provider);
    } else {
        let up = uppercase(iso);
        lemma_uppercase_ascii(iso);
        assert(tag == iso + seq!['-'] + up);
        lemma_split_two(iso, up);
        lemma_lowercase_ascii(iso);
        lemma_uppercase_ascii(up);
        // the made-up tag is already in tag case and trimmed
        assert(split_dash(tag) == seq![iso, up]);
        assert(bcp47_case(tag) == lowercase(iso) + seq!['-'] + uppercase(up));
        assert(bcp47_case(tag) == tag);
        lemma_trim_ends(code);
        if tag.len() > 0 && iso.len() > 0 {
            assert(tag[0] == iso[0]);
            assert(iso[0] == ascii_lower(c[0]));
            assert(tag.last() == up.last());
            assert(up.last() == ascii_upper(iso.last()));
            assert(iso.last() == ascii_lower(c.last()));
            assert(c.last() == c[c.len() - 1]);
        }
        lemma_trim_clean(tag);
        lemma_made_up_tag_unlisted(iso);
        assert(tag.contains('-')) by {
            assert(tag[iso.len() as int] == '-');
        }
    }
}


/// Dropping a last character other than `-` keeps the number of pieces.
proof fn lemma_split_len_drop_last(s: Seq<char>)
    requires
        s.len() > 0,
        s.last() != '-',
    ensures
        split_dash(s.drop_last()).len() == split_dash(s).len(),
{
    lemma_split_dash_nonempty(s.drop_last());
}

/// Dropping a first character other than `-` keeps the number of pieces.
proof fn lemma_split_len_drop_first(s: Seq<char>)
    requires
        s.len() > 0,
        s[0] != '-',
    ensures
        split_dash(s.drop_first()).len() == split_dash(s).len(),
    decreases s.len(),
{
    if s.len() == 1 {
        assert(s.drop_first() =~= Seq::<char>::empty());
        assert(s.drop_last() =~= Seq::<char>::empty());
        assert(s.last() == s[0]);
    } else {
        let t = s.drop_last();
        assert(t[0] == s[0]);
        lemma_split_len_drop_first(t);
        assert(s.drop_first().drop_last() =~= t.drop_first());
        assert(s.drop_first().last() == s.last());
        lemma_split_dash_nonempty(t);
        lemma_split_dash_nonempty(t.drop_first());
    }
}

/// Trimming white space keeps the number of pieces.
proof fn lemma_split_len_trim(s: Seq<char>)
    ensures
        split_dash(trim(s)).len() == split_dash(s).len(),
{
    lemma_split_len_trim_start(s);
    lemma_split_len_trim_end(trim_start(s));
}

proof fn lemma_split_len_trim_start(s: Seq<char>)
    ensures
        split_dash(trim_start(s)).len() == split_dash(s).len(),
    decreases s.len(),
{
    if s.len() > 0 && is_white_space(s[0]) {
        lemma_split_len_drop_first(s);
        lemma_split_len_trim_start(s.drop_first());
    }
}

proof fn lemma_split_len_trim_end(s: Seq<char>)
    ensures
        split_dash(trim_end(s)).len() == split_dash(s).len(),
    decreases s.len(),
{
    if s.len() > 0 && is_white_space(s.last()) {
        lemma_split_len_drop_last(s);
        lemma_split_len_trim_end(s.drop_last());
    }
}

// ---------------------------------------------------------------------------
// Letter case
// ---------------------------------------------------------------------------

/// Two ASCII texts that differ at most in the case of their letters.
pub open spec fn case_variants(a: Seq<char>, b: Seq<char>) -> bool {
    &&& a.len() == b.len()
    &&& is_ascii_seq(a)
    &&& is_ascii_seq(b)
    &&& forall|i: int| 0 <= i < a.len() ==> ascii_lower(#[trigger] a[i]) == ascii_lower(b[i])
}

proof fn lemma_upper_of_lower(c: char)
    requires
        c <= '\u{7f}',
    ensures
        ascii_upper(ascii_lower(c)) == ascii_upper(c),
{
    if 'A' <= c <= 'Z' {
        let d = ((c as u32) + 32) as char;
        assert(d as u32 == (c as u32) + 32);
        assert('a' <= d <= 'z');
        assert(((d as u32) - 32) as char == c);
    }
}

/// Case variants agree on everything that ignores letter case.
proof fn lemma_case_variants_maps(a: Seq<char>, b: Seq<char>)
    requires
        case_variants(a, b),
    ensures
        lowercase(a) == lowercase(b),
        uppercase(a) == uppercase(b),
        lower_each(a) == lower_each(b),
        capitalize_spec(a) == capitalize_spec(b),
        a.contains('-') == b.contains('-'),
        no_white_space(a) == no_white_space(b),
        forall|i: int| 0 <= i < a.len() ==> ((#[trigger] a[i] == '-') == (b[i] == '-')),
        forall|i: int| 0 <= i < a.len() ==> (is_white_space(#[trigger] a[i]) == is_white_space(b[i])),
{
    lemma_lowercase_ascii(a);
    lemma_lowercase_ascii(b);
    lemma_uppercase_ascii(a);
    lemma_uppercase_ascii(b);
    assert forall|i: int| 0 <= i < a.len() implies ((#[trigger] a[i] == '-') == (b[i] == '-'))
        && is_white_space(a[i]) == is_white_space(b[i]) && ascii_upper(a[i]) == ascii_upper(b[i]) by {
        assert(a[i] <= '\u{7f}' && b[i] <= '\u{7f}');
        assert(ascii_lower(a[i]) == ascii_lower(b[i]));
        lemma_ascii_lower_char(a[i]);
        lemma_ascii_lower_char(b[i]);
        lemma_upper_of_lower(a[i]);
        lemma_upper_of_lower(b[i]);
    }
    assert(lowercase(a) =~= lowercase(b));
    assert(uppercase(a) =~= uppercase(b));
    lemma_lower_each_ascii(a);
    lemma_lower_each_ascii(b);
    assert(lower_each(a) =~= lower_each(b));
    if a.len() > 0 {
        let ra = a.drop_first();
        let rb = b.drop_first();
        assert forall|k: int| 0 <= k < ra.len() implies #[trigger] ra[k] <= '\u{7f}' by {
            assert(ra[k] == a[k + 1]);
        }
        assert forall|k: int| 0 <= k < rb.len() implies #[trigger] rb[k] <= '\u{7f}' by {
            assert(rb[k] == b[k + 1]);
        }
        lemma_lower_each_ascii(ra);
        lemma_lower_each_ascii(rb);
        assert forall|k: int| 0 <= k < ra.len() implies ascii_lower(#[trigger] ra[k]) == ascii_lower(
            rb[k],
        ) by {
            assert(ra[k] == a[k + 1] && rb[k] == b[k + 1]);
        }
        assert(lower_each(ra) =~= lower_each(rb));
        assert(a[0] <= '\u{7f}' && b[0] <= '\u{7f}');
        assert(char_uppercase(a[0]) == char_uppercase(b[0]));
    }
    if a.contains('-') {
        let k = choose|k: int| 0 <= k < a.len() && a[k] == '-';
        assert(b[k] == '-');
    }
    if b.contains('-') {
        let k = choose|k: int| 0 <= k < b.len() && b[k] == '-';
        assert(a[k] == '-');
    }
    if no_white_space(a) {
        assert forall|k: int| 0 <= k < b.len() implies !is_white_space(#[trigger] b[k]) by {
            assert(!is_white_space(a[k]));
        }
    }
    if no_white_space(b) {
        assert forall|k: int| 0 <= k < a.len() implies !is_white_space(#[trigger] a[k]) by {
            assert(!is_white_space(b[k]));
        }
    }
}

/// An ASCII text and its upper- or lower-cased form are case variants.
proof fn lemma_case_variants_of_case(s: Seq<char>)
    requires
        is_ascii_seq(s),
    ensures
        case_variants(s, uppercase(s)),
        case_variants(s, lowercase(s)),
{
    lemma_lowercase_ascii(s);
    lemma_uppercase_ascii(s);
    assert forall|i: int| 0 <= i < s.len() implies ascii_lower(#[trigger] s[i]) == ascii_lower(
        uppercase(s)[i],
    ) && ascii_lower(s[i]) == ascii_lower(lowercase(s)[i]) by {
        assert(s[i] <= '\u{7f}');
        lemma_ascii_lower_char(s[i]);
        if 'a' <= s[i] <= 'z' {
            let d = ((s[i] as u32) - 32) as char;
            assert(d as u32 == (s[i] as u32) - 32);
            assert('A' <= d <= 'Z');
            assert(((d as u32) + 32) as char == s[i]);
        }
    }
}

/// Pieces split from case variants are case variants, piece by piece.
proof fn lemma_case_variants_split(a: Seq<char>, b: Seq<char>)
    requires
        case_variants(a, b),
    ensures
        split_dash(a).len() == split_dash(b).len(),
        forall|i: int|
            0 <= i < split_dash(a).len() ==> case_variants(
                #[trigger] split_dash(a)[i],
                split_dash(b)[i],
            ),
    decreases a.len(),
{
    lemma_case_variants_maps(a, b);
    if a.len() > 0 {
        let ta = a.drop_last();
        let tb = b.drop_last();
        assert forall|k: int| 0 <= k < ta.len() implies #[trigger] ta[k] <= '\u{7f}' && tb[k] <= '\u{7f}'
            && ascii_lower(ta[k]) == ascii_lower(tb[k]) by {
            assert(ta[k] == a[k] && tb[k] == b[k]);
        }
        lemma_case_variants_split(ta, tb);
        lemma_split_dash_nonempty(ta);
        let pa = split_dash(ta);
        let pb = split_dash(tb);
        let n = a.len() - 1;
        assert(a.last() == a[n] && b.last() == b[n]);
        if a.last() == '-' {
            assert(b.last() == '-');
            let qa = pa.push(Seq::<char>::empty());
            let qb = pb.push(Seq::<char>::empty());
            assert forall|i: int| 0 <= i < qa.len() implies case_variants(#[trigger] qa[i], qb[i]) by {
                if i < pa.len() {
                    assert(qa[i] == pa[i] && qb[i] == pb[i]);
                }
            }
        } else {
            assert(b.last() != '-');
            let la = pa.last().push(a.last());
            let lb = pb.last().push(b.last());
            assert(case_variants(pa[pa.len() - 1], pb[pb.len() - 1]));
            assert(a[n] <= '\u{7f}' && b[n] <= '\u{7f}');
            assert forall|k: int| 0 <= k < la.len() implies #[trigger] la[k] <= '\u{7f}' && lb[k]
                <= '\u{7f}' && ascii_lower(la[k]) == ascii_lower(lb[k]) by {
                if k < la.len() - 1 {
                    assert(la[k] == pa.last()[k] && lb[k] == pb.last()[k]);
                }
            }
            let qa = pa.update(pa.len() - 1, la);
            let qb = pb.update(pb.len() - 1, lb);
            assert forall|i: int| 0 <= i < qa.len() implies case_variants(#[trigger] qa[i], qb[i]) by {
                if i < pa.len() - 1 {
                    assert(qa[i] == pa[i] && qb[i] == pb[i]);
                }
            }
        }
    }
}

proof fn lemma_case_variants_trim_start(a: Seq<char>, b: Seq<char>)
    requires
        case_variants(a, b),
    ensures
        case_variants(trim_start(a), trim_start(b)),
    decreases a.len(),
{
    lemma_case_variants_maps(a, b);
    if a.len() > 0 && is_white_space(a[0]) {
        let ta = a.drop_first();
        let tb = b.drop_first();
        assert forall|k: int| 0 <= k < ta.len() implies #[trigger] ta[k] <= '\u{7f}' && tb[k] <= '\u{7f}'
            && ascii_lower(ta[k]) == ascii_lower(tb[k]) by {
            assert(ta[k] == a[k + 1] && tb[k] == b[k + 1]);
        }
        lemma_case_variants_trim_start(ta, tb);
    }
}

proof fn lemma_case_variants_trim_end(a: Seq<char>, b: Seq<char>)
    requires
        case_variants(a, b),
    ensures
        case_variants(trim_end(a), trim_end(b)),
    decreases a.len(),
{
    lemma_case_variants_maps(a, b);
    if a.len() > 0 && is_white_space(a.last()) {
        let ta = a.drop_last();
        let tb = b.drop_last();
        assert(a.last() == a[a.len() - 1]);
        assert forall|k: int| 0 <= k < ta.len() implies #[trigger] ta[k] <= '\u{7f}' && tb[k] <= '\u{7f}'
            && ascii_lower(ta[k]) == ascii_lower(tb[k]) by {
            assert(ta[k] == a[k] && tb[k] == b[k]);
        }
        lemma_case_variants_trim_end(ta, tb);
    } else if a.len() > 0 {
        assert(a.last() == a[a.len() - 1]);
        assert(!is_white_space(b.last()));
    }
}

/// Tag case of case variants with at most three pieces is the same.
proof fn lemma_case_variants_bcp47(a: Seq<char>, b: Seq<char>)
    requires
        case_variants(a, b),
        split_dash(a).len() <= 3,
    ensures
        bcp47_case(a) == bcp47_case(b),
{
    lemma_case_variants_split(a, b);
    lemma_split_dash_nonempty(a);
    let pa = split_dash(a);
    let pb = split_dash(b);
    lemma_case_variants_maps(pa[0], pb[0]);
    if pa.len() >= 2 {
        lemma_case_variants_maps(pa[1], pb[1]);
    }
    if pa.len() >= 3 {
        lemma_case_variants_maps(pa[2], pb[2]);
    }
}

/// Law: surrounding white space does not change what a code normalizes to.
pub proof fn law_normalize_ignores_trimming(code: Seq<char>, provider: Seq<char>)
    ensures
        normalize_spec(code, provider) == normalize_spec(trim(code), provider),
{
    lemma_trim_idempotent(code);
}

/// Law: letter case does not change what an ASCII code of at most three
/// pieces normalizes to: the code, its ASCII upper case and its ASCII lower
/// case normalize alike. (A code of more pieces is kept as it is, case
/// included.)
pub proof fn law_normalize_ignores_case(code: Seq<char>, provider: Seq<char>)
    requires
        is_ascii_seq(code),
        split_dash(code).len() <= 3,
    ensures
        normalize_spec(code, provider) == normalize_spec(uppercase(code), provider),
        normalize_spec(code, provider) == normalize_spec(lowercase(code), provider),
{
    lemma_split_len_trim(code);
    lemma_case_variants_of_case(code);
    lemma_normalize_case_variants(code, uppercase(code), provider);
    lemma_normalize_case_variants(code, lowercase(code), provider);
}

proof fn lemma_normalize_case_variants(a: Seq<char>, b: Seq<char>, provider: Seq<char>)
    requires
        case_variants(a, b),
        split_dash(trim(a)).len() <= 3,
    ensures
        normalize_spec(a, provider) == normalize_spec(b, provider),
{
    lemma_case_variants_trim_start(a, b);
    lemma_case_variants_trim_end(trim_start(a), trim_start(b));
    let ca = trim(a);
    let cb = trim(b);
    lemma_case_variants_maps(ca, cb);
    lemma_case_variants_split(ca, cb);
    lemma_split_dash_nonempty(ca);
    if ca.contains('-') {
        lemma_case_variants_bcp47(ca, cb);
        lemma_case_variants_maps(split_dash(ca)[0], split_dash(cb)[0]);
    }
}


// ---------------------------------------------------------------------------
// Known codes
// ---------------------------------------------------------------------------

/// A text whose pieces hold no white space holds none itself.
proof fn lemma_split_pieces_clean(s: Seq<char>)
    requires
        forall|i: int| 0 <= i < split_dash(s).len() ==> no_white_space(#[trigger] split_dash(s)[i]),
    ensures
        no_white_space(s),
    decreases s.len(),
{
    if s.len() > 0 {
        let t = s.drop_last();
        let init = split_dash(t);
        lemma_split_dash_nonempty(t);
        let n = s.len() - 1;
        assert(s.last() == s[n]);
        if s.last() == '-' {
            let p = init.push(Seq::<char>::empty());
            assert(split_dash(s) == p);
            assert forall|i: int| 0 <= i < init.len() implies no_white_space(#[trigger] init[i]) by {
                assert(p[i] == init[i]);
                assert(no_white_space(split_dash(s)[i]));
            }
        } else {
            let last = init.last().push(s.last());
            let p = init.update(init.len() - 1, last);
            assert(split_dash(s) == p);
            assert(no_white_space(split_dash(s)[init.len() - 1]));
            assert(no_white_space(p[init.len() - 1]));
            assert(!is_white_space(last[last.len() - 1]));
            assert forall|i: int| 0 <= i < init.len() implies no_white_space(#[trigger] init[i]) by {
                if i < init.len() - 1 {
                    assert(p[i] == init[i]);
                    assert(no_white_space(split_dash(s)[i]));
                } else {
                    assert forall|k: int| 0 <= k < init[i].len() implies !is_white_space(
                        #[trigger] init[i][k],
                    ) by {
                        assert(last[k] == init[i][k]);
                    }
                }
            }
        }
        lemma_split_pieces_clean(t);
        assert forall|k: int| 0 <= k < s.len() implies !is_white_space(#[trigger] s[k]) by {
            if k < n {
                assert(s[k] == t[k]);
            }
        }
    }
}

/// Tag case keeps the number of pieces of an ASCII tag of at most three,
/// and where the result holds no white space, neither did the tag.
proof fn lemma_bcp47_case_pieces(s: Seq<char>)
    requires
        is_ascii_seq(s),
        s.contains('-'),
    ensures
        split_dash(s).len() <= 3 ==> split_dash(bcp47_case(s)).len() == split_dash(s).len(),
        no_white_space(bcp47_case(s)) ==> no_white_space(s),
{
    let parts = split_dash(s);
    lemma_split_parts(s);
    lemma_split_dash_count(s);
    let o = bcp47_case(s);
    if parts.len() == 2 {
        let a = lowercase(parts[0]);
        let b = uppercase(parts[1]);
        lemma_case_variants_of_case(parts[0]);
        lemma_case_variants_of_case(parts[1]);
        lemma_case_variants_maps(parts[0], a);
        lemma_case_variants_maps(parts[1], b);
        lemma_split_two(a, b);
        if no_white_space(o) {
            lemma_split_parts(o);
            assert(split_dash(o)[0] == a && split_dash(o)[1] == b);
            lemma_split_pieces_clean(s);
        }
    } else if parts.len() == 3 {
        let a = lowercase(parts[0]);
        let b = capitalize_spec(parts[1]);
        let c = uppercase(parts[2]);
        lemma_case_variants_of_case(parts[0]);
        lemma_case_variants_of_case(parts[2]);
        lemma_case_variants_maps(parts[0], a);
        lemma_case_variants_maps(parts[2], c);
        lemma_capitalize_ascii(parts[1]);
        lemma_split_three(a, b, c);
        if no_white_space(o) {
            lemma_split_parts(o);
            assert(split_dash(o)[0] == a && split_dash(o)[1] == b && split_dash(o)[2] == c);
            assert(no_white_space(parts[1])) by {
                // capitalizing keeps white space where it was
                let p = parts[1];
                if p.len() > 0 {
                    let rest = p.drop_first();
                    assert forall|k: int| 0 <= k < rest.len() implies #[trigger] rest[k] <= '\u{7f}' by {
                        assert(rest[k] == p[k + 1]);
                    }
                    lemma_lower_each_ascii(rest);
                    assert(p[0] <= '\u{7f}');
                    lemma_ascii_upper_char(p[0]);
                    assert(char_uppercase(p[0]) == seq![ascii_upper(p[0])]);
                    assert forall|k: int| 0 <= k < p.len() implies !is_white_space(#[trigger] p[k]) by {
                        assert(!is_white_space(b[k]));
                        if k > 0 {
                            assert(b[k] == rest.map_values(|c: char| ascii_lower(c))[k - 1]);
                            assert(rest[k - 1] == p[k]);
                            lemma_ascii_lower_char(p[k]);
                        }
                    }
                }
            }
            lemma_split_pieces_clean(s);
        }
    }
}

/// A tag that maps to an ISO code is a tag of the tables.
proof fn lemma_known_tag_shape(tag: Seq<char>)
    requires
        bcp47_to_iso(tag) is Some,
    ensures
        tag_shape(tag),
{
    lemma_iso_table_shapes();
    lemma_variant_table_shapes();
    if lookup_first(bcp47_variant_table(), tag) is Some {
        lemma_lookup_first_found(bcp47_variant_table(), tag);
        let i = choose|i: int|
            0 <= i < bcp47_variant_table().len()
            && (#[trigger] bcp47_variant_table()[i]).0 == tag;
        assert(tag_shape(bcp47_variant_table()[i].0));
    } else {
        lemma_lookup_last_found(iso_bcp47_table(), tag);
        let j = choose|j: int|
            0 <= j < iso_bcp47_table().len()
            && (#[trigger] iso_bcp47_table()[j]).1 == tag;
        assert(tag_shape(iso_bcp47_table()[j].1));
    }
}

/// A tag of a tag shape has two pieces.
proof fn lemma_tag_shape_pieces(t: Seq<char>)
    requires
        tag_shape(t),
    ensures
        split_dash(t).len() == 2,
{
    let a = t.take(2);
    let b = t.skip(3);
    assert(t =~= a + seq!['-'] + b);
    assert(!a.contains('-')) by {
        if a.contains('-') {
            let k = choose|k: int| 0 <= k < a.len() && a[k] == '-';
            assert(a[k] == t[k]);
        }
    }
    assert(!b.contains('-')) by {
        if b.contains('-') {
            let k = choose|k: int| 0 <= k < b.len() && b[k] == '-';
            assert(b[k] == t[k + 3]);
            assert('A' <= t[k + 3] <= 'Z' || '0' <= t[k + 3] <= '9');
        }
    }
    lemma_split_two(a, b);
}

/// A known ASCII code is its own trim, and one holding a `-` has at most
/// three pieces.
proof fn lemma_known_clean(code: Seq<char>)
    requires
        is_ascii_seq(code),
        is_known_spec(code),
    ensures
        trim(code) == code,
        code.contains('-') ==> split_dash(code).len() <= 3,
{
    lemma_case_variants_of_case(code);
    lemma_case_variants_maps(code, lowercase(code));
    if code.contains('-') {
        let t = bcp47_case(code);
        lemma_known_tag_shape(t);
        lemma_tag_shape(t);
        lemma_tag_shape_pieces(t);
        lemma_bcp47_case_pieces(code);
        if split_dash(code).len() > 3 {
            assert(t == code);
        }
    } else {
        lemma_iso_table_shapes();
        lemma_lookup_first_found(iso_bcp47_table(), lowercase(code));
        let i = choose|i: int|
            0 <= i < iso_bcp47_table().len()
            && (#[trigger] iso_bcp47_table()[i]).0 == lowercase(code);
        assert(iso_code_shape(iso_bcp47_table()[i].0));
        lemma_iso_code_shape(lowercase(code));
    }
    lemma_trim_no_white_space(code);
}

/// Law: a known ASCII code stays known when it is normalized for any
/// provider, and when it is upper- or lower-cased.
pub proof fn law_known_stays_known(code: Seq<char>, provider: Seq<char>)
    requires
        is_ascii_seq(code),
        is_known_spec(code),
    ensures
        is_known_spec(normalize_spec(code, provider)),
        is_known_spec(uppercase(code)),
        is_known_spec(lowercase(code)),
{
    lemma_known_clean(code);
    lemma_case_variants_of_case(code);
    lemma_case_variants_maps(code, uppercase(code));
    lemma_case_variants_maps(code, lowercase(code));
    lemma_lowercase_ascii(code);
    lemma_uppercase_ascii(code);
    lemma_lowercase_ascii(lowercase(code));
    if code.contains('-') {
        lemma_case_variants_bcp47(code, uppercase(code));
        lemma_case_variants_bcp47(code, lowercase(code));
    }
    let t = iso_bcp47_table();
    let r = normalize_spec(code, provider);
    if provider_format(provider) == LanguageFormat::Bcp47 {
        if code.contains('-') {
            lemma_bcp47_case_ascii(code);
        } else {
            let tag = iso_to_bcp47(lowercase(code))->0;
            lemma_iso_to_bcp47_shape(lowercase(code));
            lemma_tag_shape(tag);
            lemma_lookup_first_found(t, lowercase(code));
            lemma_lookup_last_found(t, tag);
            if lookup_first(bcp47_variant_table(), tag) is None {
                let i = choose|i: int|
                    0 <= i < t.len()
                    && (#[trigger] t[i]).0 == lowercase(code)
                    && t[i].1 == tag;
                assert(t[i].1 == tag);
            }
        }
    } else {
        if code.contains('-') {
            let iso = bcp47_to_iso(bcp47_case(code))->0;
            lemma_bcp47_to_iso_shape(bcp47_case(code));
            lemma_iso_code_shape(iso);
            lemma_lookup_first_found(t, iso);
            if let Some(v) = lookup_first(bcp47_variant_table(), bcp47_case(code)) {
                lemma_lookup_first_found(bcp47_variant_table(), bcp47_case(code));
                lemma_variant_values_listed();
                let m = choose|m: int|
                    0 <= m < bcp47_variant_table().len()
                    && (#[trigger] bcp47_variant_table()[m]).0 == bcp47_case(code)
                    && bcp47_variant_table()[m].1 == v;
                assert(exists|i: int|
                    0 <= i < t.len()
                    && (#[trigger] t[i]).0 == bcp47_variant_table()[m].1);
            } else {
                lemma_lookup_last_found(t, bcp47_case(code));
            }
        }
    }
}

} // verus!
