//! The transport format of a proof envelope: a self-delimiting text
//! rendering with fixed-width numbers, written and parsed here, with the
//! round trip proved. The envelope hash is the digest of this rendering.

use vstd::prelude::*;
use crate::cefr::{rank, CefrLevel};
use crate::dict::Dict;
use crate::text::{
    dec_fixed, dec_fixed_exec, dec_value, digit_value, lemma_dec_fixed_value,
    lemma_u64_fits_twenty_digits, lemma_pow10_twenty, parse_dec_fixed, pow10,
};
use crate::zk_proof::{claim_list_model, claim_model, ClaimType, ClaimTypeModel, ClaimValue, ClaimValueModel};

verus! {

/// Splitting a window of `s` that holds `a + b` yields the two parts.
pub proof fn lemma_subrange_concat(s: Seq<char>, pos: int, a: Seq<char>, b: Seq<char>)
    requires
        0 <= pos,
        pos + a.len() + b.len() <= s.len(),
        s.subrange(pos, pos + a.len() + b.len()) == a + b,
    ensures
        s.subrange(pos, pos + a.len()) == a,
        s.subrange(pos + a.len(), pos + a.len() + b.len()) == b,
{
    let whole = s.subrange(pos, pos + a.len() + b.len());
    assert forall|i: int| 0 <= i < a.len() implies s.subrange(pos, pos + a.len())[i] == a[i] by {
        assert(whole[i] == (a + b)[i]);
    }
    assert(s.subrange(pos, pos + a.len()) =~= a);
    assert forall|i: int| 0 <= i < b.len() implies s.subrange(
        pos + a.len(),
        pos + a.len() + b.len(),
    )[i] == b[i] by {
        assert(whole[a.len() + i] == (a + b)[a.len() + i]);
    }
    assert(s.subrange(pos + a.len(), pos + a.len() + b.len()) =~= b);
}

/// An unsigned number on the wire: twenty zero-padded digits.
pub open spec fn enc_u64(n: int) -> Seq<char> {
    dec_fixed(n as nat, 20)
}

/// Reads twenty digits; fails on a non-digit or a value over `u64::MAX`.
pub open spec fn spec_parse_u64(s: Seq<char>, pos: int) -> Option<(u64, int)> {
    if 0 <= pos && pos + 20 <= s.len() && (forall|j: int|
        pos <= j < pos + 20 ==> digit_value(#[trigger] s[j]) is Some) && dec_value(
        s.subrange(pos, pos + 20),
    ) <= u64::MAX {
        Some((dec_value(s.subrange(pos, pos + 20)) as u64, pos + 20))
    } else {
        None
    }
}

/// An encoded number reads back as itself.
pub proof fn lemma_parse_u64_enc(n: u64, s: Seq<char>, pos: int)
    requires
        0 <= pos,
        pos + 20 <= s.len(),
        s.subrange(pos, pos + 20) == enc_u64(n as int),
    ensures
        spec_parse_u64(s, pos) == Some((n, pos + 20)),
{
    lemma_u64_fits_twenty_digits(n);
    lemma_dec_fixed_value(n as nat, 20);
    assert forall|j: int| pos <= j < pos + 20 implies digit_value(#[trigger] s[j]) is Some by {
        assert(s[j] == s.subrange(pos, pos + 20)[j - pos]);
    }
}

/// Reads twenty digits off the wire.
pub fn parse_u64(s: &str, pos: usize) -> (r: Option<(u64, usize)>)
    ensures
        r is Some <==> spec_parse_u64(s@, pos as int) is Some,
        r matches Some(p) ==> spec_parse_u64(s@, pos as int) == Some((p.0, p.1 as int)),
{
    let n = s.unicode_len();
    if n < 20 || pos > n - 20 {
        return None;
    }
    match parse_dec_fixed(s, pos, 20) {
        Some(value) => Some((value, pos + 20)),
        None => None,
    }
}

/// A byte on the wire: three zero-padded digits.
pub open spec fn enc_u8(b: u8) -> Seq<char> {
    dec_fixed(b as nat, 3)
}

/// Reads three digits; fails on a non-digit or a value over 255.
pub open spec fn spec_parse_u8(s: Seq<char>, pos: int) -> Option<(u8, int)> {
    if 0 <= pos && pos + 3 <= s.len() && (forall|j: int|
        pos <= j < pos + 3 ==> digit_value(#[trigger] s[j]) is Some) && dec_value(
        s.subrange(pos, pos + 3),
    ) <= 255 {
        Some((dec_value(s.subrange(pos, pos + 3)) as u8, pos + 3))
    } else {
        None
    }
}

/// An encoded byte reads back as itself.
pub proof fn lemma_parse_u8_enc(b: u8, s: Seq<char>, pos: int)
    requires
        0 <= pos,
        pos + 3 <= s.len(),
        s.subrange(pos, pos + 3) == enc_u8(b),
    ensures
        spec_parse_u8(s, pos) == Some((b, pos + 3)),
{
    assert(pow10(3) == 1000) by {
        assert(pow10(0) == 1);
        assert(pow10(1) == 10);
        assert(pow10(2) == 100);
    }
    lemma_dec_fixed_value(b as nat, 3);
    assert forall|j: int| pos <= j < pos + 3 implies digit_value(#[trigger] s[j]) is Some by {
        assert(s[j] == s.subrange(pos, pos + 3)[j - pos]);
    }
}

/// Reads three digits off the wire.
pub fn parse_u8(s: &str, pos: usize) -> (r: Option<(u8, usize)>)
    ensures
        r is Some <==> spec_parse_u8(s@, pos as int) is Some,
        r matches Some(p) ==> spec_parse_u8(s@, pos as int) == Some((p.0, p.1 as int)),
{
    let n = s.unicode_len();
    if n < 3 || pos > n - 3 {
        return None;
    }
    match parse_dec_fixed(s, pos, 3) {
        Some(value) => {
            if value <= 255 {
                Some((value as u8, pos + 3))
            } else {
                None
            }
        },
        None => None,
    }
}

/// A boolean on the wire: one character.
pub open spec fn enc_bool(b: bool) -> Seq<char> {
    if b {
        seq!['1']
    } else {
        seq!['0']
    }
}

/// Reads a boolean character.
pub open spec fn spec_parse_bool(s: Seq<char>, pos: int) -> Option<(bool, int)> {
    if 0 <= pos < s.len() && (s[pos] == '1' || s[pos] == '0') {
        Some(((s[pos] == '1'), pos + 1))
    } else {
        None
    }
}

/// An encoded boolean reads back as itself.
pub proof fn lemma_parse_bool_enc(b: bool, s: Seq<char>, pos: int)
    requires
        0 <= pos,
        pos + 1 <= s.len(),
        s.subrange(pos, pos + 1) == enc_bool(b),
    ensures
        spec_parse_bool(s, pos) == Some((b, pos + 1)),
{
    assert(s[pos] == s.subrange(pos, pos + 1)[0]);
}

/// Reads a boolean character off the wire.
pub fn parse_bool(s: &str, pos: usize) -> (r: Option<(bool, usize)>)
    ensures
        r is Some <==> spec_parse_bool(s@, pos as int) is Some,
        r matches Some(p) ==> spec_parse_bool(s@, pos as int) == Some((p.0, p.1 as int)),
{
    let n = s.unicode_len();
    if pos >= n {
        return None;
    }
    let c = s.get_char(pos);
    if c == '1' {
        Some((true, pos + 1))
    } else if c == '0' {
        Some((false, pos + 1))
    } else {
        None
    }
}

/// A signed number on the wire: a sign character and nineteen digits.
pub open spec fn enc_i64(v: i64) -> Seq<char> {
    if v >= 0 {
        seq!['+'] + dec_fixed(v as nat, 19)
    } else {
        seq!['-'] + dec_fixed((-(v as int)) as nat, 19)
    }
}

/// Reads a sign and nineteen digits; fails when the magnitude leaves the
/// `i64` range.
pub open spec fn spec_parse_i64(s: Seq<char>, pos: int) -> Option<(i64, int)> {
    if 0 <= pos && pos + 20 <= s.len() && (s[pos] == '+' || s[pos] == '-') && (forall|j: int|
        pos + 1 <= j < pos + 20 ==> digit_value(#[trigger] s[j]) is Some) {
        let magnitude = dec_value(s.subrange(pos + 1, pos + 20));
        if s[pos] == '+' && magnitude <= i64::MAX {
            Some((magnitude as i64, pos + 20))
        } else if s[pos] == '-' && magnitude <= 0x8000000000000000 {
            Some(((-magnitude) as i64, pos + 20))
        } else {
            None
        }
    } else {
        None
    }
}

/// An encoded signed number reads back as itself.
pub proof fn lemma_parse_i64_enc(v: i64, s: Seq<char>, pos: int)
    requires
        0 <= pos,
        pos + 20 <= s.len(),
        s.subrange(pos, pos + 20) == enc_i64(v),
    ensures
        spec_parse_i64(s, pos) == Some((v, pos + 20)),
{
    let magnitude: nat = if v >= 0 {
        v as nat
    } else {
        (-(v as int)) as nat
    };
    assert(pow10(19) == 10000000000000000000) by {
        lemma_pow10_twenty();
        assert(pow10(20) == 10 * pow10(19));
    }
    lemma_dec_fixed_value(magnitude, 19);
    let sign: Seq<char> = if v >= 0 {
        seq!['+']
    } else {
        seq!['-']
    };
    lemma_subrange_concat(s, pos, sign, dec_fixed(magnitude, 19));
    assert(s[pos] == s.subrange(pos, pos + 1)[0]);
    assert(s.subrange(pos + 1, pos + 20) == dec_fixed(magnitude, 19));
    assert forall|j: int| pos + 1 <= j < pos + 20 implies digit_value(#[trigger] s[j]) is Some by {
        assert(s[j] == s.subrange(pos + 1, pos + 20)[j - (pos + 1)]);
    }
}

/// Reads a sign and nineteen digits off the wire.
pub fn parse_i64(s: &str, pos: usize) -> (r: Option<(i64, usize)>)
    ensures
        r is Some <==> spec_parse_i64(s@, pos as int) is Some,
        r matches Some(p) ==> spec_parse_i64(s@, pos as int) == Some((p.0, p.1 as int)),
{
    let n = s.unicode_len();
    if n < 20 || pos > n - 20 {
        return None;
    }
    let sign = s.get_char(pos);
    if sign != '+' && sign != '-' {
        return None;
    }
    let magnitude = match parse_dec_fixed(s, pos + 1, 19) {
        Some(value) => value,
        None => {
            return None;
        },
    };
    proof {
        assert(pow10(19) == 10000000000000000000) by {
            lemma_pow10_twenty();
            assert(pow10(20) == 10 * pow10(19));
        }
    }
    if sign == '+' {
        if magnitude <= i64::MAX as u64 {
            Some((magnitude as i64, pos + 20))
        } else {
            None
        }
    } else {
        if magnitude <= 0x8000000000000000u64 {
            Some(((-(magnitude as i128)) as i64, pos + 20))
        } else {
            None
        }
    }
}

/// Renders a signed number for the wire.
pub fn enc_i64_exec(v: i64) -> (r: String)
    ensures
        r@ == enc_i64(v),
{
    proof {
        reveal_strlit("+");
        reveal_strlit("-");
    }
    if v >= 0 {
        let r = String::from_str("+").concat(dec_fixed_exec(v as u64, 19).as_str());
        proof {
            assert(r@ =~= enc_i64(v));
        }
        r
    } else {
        let magnitude: u64 = (-(v as i128)) as u64;
        let r = String::from_str("-").concat(dec_fixed_exec(magnitude, 19).as_str());
        proof {
            assert(r@ =~= enc_i64(v));
        }
        r
    }
}

/// A string on the wire: its character count, then its characters.
pub open spec fn enc_str(t: Seq<char>) -> Seq<char> {
    enc_u64(t.len() as int) + t
}

/// Reads a count and that many characters.
pub open spec fn spec_parse_str(s: Seq<char>, pos: int) -> Option<(Seq<char>, int)> {
    match spec_parse_u64(s, pos) {
        None => None,
        Some(header) => {
            let count = header.0 as int;
            if header.1 + count <= s.len() {
                Some((s.subrange(header.1, header.1 + count), header.1 + count))
            } else {
                None
            }
        },
    }
}

/// An encoded string reads back as itself, as long as its length fits
/// the count field.
pub proof fn lemma_parse_str_enc(t: Seq<char>, s: Seq<char>, pos: int)
    requires
        0 <= pos,
        t.len() <= u64::MAX,
        pos + enc_str(t).len() <= s.len(),
        s.subrange(pos, pos + enc_str(t).len()) == enc_str(t),
    ensures
        spec_parse_str(s, pos) == Some((t, pos + enc_str(t).len())),
{
    lemma_u64_fits_twenty_digits(t.len() as u64);
    lemma_dec_fixed_value(t.len() as nat, 20);
    lemma_subrange_concat(s, pos, enc_u64(t.len() as int), t);
    lemma_parse_u64_enc(t.len() as u64, s, pos);
}

/// Reads a counted string off the wire.
pub fn parse_str(s: &str, pos: usize) -> (r: Option<(String, usize)>)
    ensures
        r is Some <==> spec_parse_str(s@, pos as int) is Some,
        r matches Some(p) ==> spec_parse_str(s@, pos as int) == Some((p.0@, p.1 as int)),
{
    let n = s.unicode_len();
    let header = match parse_u64(s, pos) {
        Some(h) => h,
        None => {
            return None;
        },
    };
    let count = header.0;
    let after = header.1;
    if count > (usize::MAX as u64) {
        proof {
            assert(after + count > s@.len());
        }
        return None;
    }
    let count_usize = count as usize;
    if count_usize > n || after > n - count_usize {
        return None;
    }
    let content = s.substring_char(after, after + count_usize);
    Some((String::from_str(content), after + count_usize))
}


/// A proficiency level on the wire: the digit of its rank.
pub open spec fn enc_level(level: CefrLevel) -> Seq<char> {
    seq![crate::text::digit_char(rank(level))]
}

/// Reads a rank digit back into a level.
pub open spec fn spec_parse_level(s: Seq<char>, pos: int) -> Option<(CefrLevel, int)> {
    if 0 <= pos < s.len() {
        if s[pos] == '1' {
            Some((CefrLevel::A1, pos + 1))
        } else if s[pos] == '2' {
            Some((CefrLevel::A2, pos + 1))
        } else if s[pos] == '3' {
            Some((CefrLevel::B1, pos + 1))
        } else if s[pos] == '4' {
            Some((CefrLevel::B2, pos + 1))
        } else if s[pos] == '5' {
            Some((CefrLevel::C1, pos + 1))
        } else if s[pos] == '6' {
            Some((CefrLevel::C2, pos + 1))
        } else {
            None
        }
    } else {
        None
    }
}

/// An encoded level reads back as itself.
pub proof fn lemma_parse_level_enc(level: CefrLevel, s: Seq<char>, pos: int)
    requires
        0 <= pos,
        pos + 1 <= s.len(),
        s.subrange(pos, pos + 1) == enc_level(level),
    ensures
        spec_parse_level(s, pos) == Some((level, pos + 1)),
{
    assert(s[pos] == s.subrange(pos, pos + 1)[0]);
}

/// Reads a rank digit off the wire.
pub fn parse_level(s: &str, pos: usize) -> (r: Option<(CefrLevel, usize)>)
    ensures
        r is Some <==> spec_parse_level(s@, pos as int) is Some,
        r matches Some(p) ==> spec_parse_level(s@, pos as int) == Some((p.0, p.1 as int)),
{
    let n = s.unicode_len();
    if pos >= n {
        return None;
    }
    match s.get_char(pos) {
        '1' => Some((CefrLevel::A1, pos + 1)),
        '2' => Some((CefrLevel::A2, pos + 1)),
        '3' => Some((CefrLevel::B1, pos + 1)),
        '4' => Some((CefrLevel::B2, pos + 1)),
        '5' => Some((CefrLevel::C1, pos + 1)),
        '6' => Some((CefrLevel::C2, pos + 1)),
        _ => None,
    }
}

/// A requirement value on the wire: a tag, then text or a number.
pub open spec fn enc_value(value: ClaimValueModel) -> Seq<char> {
    match value {
        ClaimValueModel::Text(t) => seq!['T'] + enc_str(t),
        ClaimValueModel::Number(n) => seq!['N'] + enc_u64(n),
    }
}

/// A requirement value that the wire format can carry.
pub open spec fn value_bounded(value: ClaimValueModel) -> bool {
    match value {
        ClaimValueModel::Text(t) => t.len() <= u64::MAX,
        ClaimValueModel::Number(n) => 0 <= n <= u64::MAX,
    }
}

/// Reads a tagged requirement value.
pub open spec fn spec_parse_value(s: Seq<char>, pos: int) -> Option<(ClaimValueModel, int)> {
    if 0 <= pos < s.len() {
        if s[pos] == 'T' {
            match spec_parse_str(s, pos + 1) {
                Some(p) => Some((ClaimValueModel::Text(p.0), p.1)),
                None => None,
            }
        } else if s[pos] == 'N' {
            match spec_parse_u64(s, pos + 1) {
                Some(p) => Some((ClaimValueModel::Number(p.0 as int), p.1)),
                None => None,
            }
        } else {
            None
        }
    } else {
        None
    }
}

/// An encoded requirement value reads back as itself.
pub proof fn lemma_parse_value_enc(value: ClaimValueModel, s: Seq<char>, pos: int)
    requires
        0 <= pos,
        value_bounded(value),
        pos + enc_value(value).len() <= s.len(),
        s.subrange(pos, pos + enc_value(value).len()) == enc_value(value),
    ensures
        spec_parse_value(s, pos) == Some((value, pos + enc_value(value).len())),
{
    match value {
        ClaimValueModel::Text(t) => {
            lemma_subrange_concat(s, pos, seq!['T'], enc_str(t));
            assert(s[pos] == s.subrange(pos, pos + 1)[0]);
            lemma_parse_str_enc(t, s, pos + 1);
        },
        ClaimValueModel::Number(n) => {
            lemma_u64_fits_twenty_digits(n as u64);
            lemma_dec_fixed_value(n as nat, 20);
            lemma_subrange_concat(s, pos, seq!['N'], enc_u64(n));
            assert(s[pos] == s.subrange(pos, pos + 1)[0]);
            lemma_parse_u64_enc(n as u64, s, pos + 1);
        },
    }
}

/// Reads a tagged requirement value off the wire.
pub fn parse_value(s: &str, pos: usize) -> (r: Option<(ClaimValue, usize)>)
    ensures
        r is Some <==> spec_parse_value(s@, pos as int) is Some,
        r matches Some(p) ==> spec_parse_value(s@, pos as int) == Some((
            p.0.deep_view(),
            p.1 as int,
        )),
{
    let n = s.unicode_len();
    if pos >= n {
        return None;
    }
    let tag = s.get_char(pos);
    if tag == 'T' {
        match parse_str(s, pos + 1) {
            Some(p) => Some((ClaimValue::Text(p.0), p.1)),
            None => None,
        }
    } else if tag == 'N' {
        match parse_u64(s, pos + 1) {
            Some(p) => Some((ClaimValue::Number(p.0), p.1)),
            None => None,
        }
    } else {
        None
    }
}

/// A table of requirement values on the wire: each key, then its value.
pub open spec fn enc_value_pairs(pairs: Seq<(Seq<char>, ClaimValueModel)>) -> Seq<char>
    decreases pairs.len(),
{
    if pairs.len() == 0 {
        Seq::empty()
    } else {
        enc_str(pairs.first().0) + enc_value(pairs.first().1) + enc_value_pairs(
            pairs.drop_first(),
        )
    }
}

/// A table of requirement values the wire format can carry.
pub open spec fn value_pairs_bounded(pairs: Seq<(Seq<char>, ClaimValueModel)>) -> bool {
    &&& pairs.len() <= u64::MAX
    &&& forall|j: int|
        0 <= j < pairs.len() ==> (#[trigger] pairs[j]).0.len() <= u64::MAX && value_bounded(
            pairs[j].1,
        )
}

/// Reads `count` key-value entries.
pub open spec fn spec_parse_value_pairs(s: Seq<char>, pos: int, count: int) -> Option<
    (Seq<(Seq<char>, ClaimValueModel)>, int),
>
    decreases count,
{
    if count <= 0 {
        Some((Seq::empty(), pos))
    } else {
        match spec_parse_str(s, pos) {
            None => None,
            Some(key) => match spec_parse_value(s, key.1) {
                None => None,
                Some(value) => match spec_parse_value_pairs(s, value.1, count - 1) {
                    None => None,
                    Some(rest) => Some((seq![(key.0, value.0)] + rest.0, rest.1)),
                },
            },
        }
    }
}

/// Encoded entries read back as themselves.
pub proof fn lemma_parse_value_pairs_enc(
    pairs: Seq<(Seq<char>, ClaimValueModel)>,
    s: Seq<char>,
    pos: int,
)
    requires
        0 <= pos,
        value_pairs_bounded(pairs),
        pos + enc_value_pairs(pairs).len() <= s.len(),
        s.subrange(pos, pos + enc_value_pairs(pairs).len()) == enc_value_pairs(pairs),
    ensures
        spec_parse_value_pairs(s, pos, pairs.len() as int) == Some((
            pairs,
            pos + enc_value_pairs(pairs).len(),
        )),
    decreases pairs.len(),
{
    if pairs.len() > 0 {
        let key = pairs.first().0;
        let value = pairs.first().1;
        let head = enc_str(key) + enc_value(value);
        let tail = enc_value_pairs(pairs.drop_first());
        assert(enc_value_pairs(pairs) == head + tail);
        lemma_subrange_concat(s, pos, head, tail);
        assert(head + tail =~= enc_str(key) + (enc_value(value) + tail));
        lemma_subrange_concat(s, pos, enc_str(key), enc_value(value) + tail);
        let p1 = pos + enc_str(key).len();
        lemma_subrange_concat(s, p1, enc_value(value), tail);
        lemma_parse_str_enc(key, s, pos);
        lemma_parse_value_enc(value, s, p1);
        let p2 = p1 + enc_value(value).len();
        assert(value_pairs_bounded(pairs.drop_first())) by {
            assert(forall|j: int|
                0 <= j < pairs.drop_first().len() ==> pairs.drop_first()[j] == pairs[j + 1]);
        }
        lemma_parse_value_pairs_enc(pairs.drop_first(), s, p2);
        assert(seq![(key, value)] + pairs.drop_first() =~= pairs);
    }
}

/// Reads `count` key-value entries into a fresh table, later entries
/// overwriting earlier keys.
pub fn parse_value_dict(s: &str, pos: usize, count: u64) -> (r: Option<(Dict<ClaimValue>, usize)>)
    ensures
        r is Some <==> spec_parse_value_pairs(s@, pos as int, count as int) is Some,
        r matches Some(p) ==> spec_parse_value_pairs(s@, pos as int, count as int) matches Some(
            sp,
        ) && {
            &&& p.0.wf()
            &&& p.0.to_map() == crate::dict::pairs_map(sp.0)
            &&& p.1 as int == sp.1
        },
    decreases count,
{
    if count == 0 {
        let empty: Dict<ClaimValue> = Dict::new();
        return Some((empty, pos));
    }
    let key = match parse_str(s, pos) {
        Some(p) => p,
        None => {
            return None;
        },
    };
    let value = match parse_value(s, key.1) {
        Some(p) => p,
        None => {
            return None;
        },
    };
    let rest = match parse_value_dict(s, value.1, count - 1) {
        Some(p) => p,
        None => {
            return None;
        },
    };
    let ghost rest_pairs = spec_parse_value_pairs(s@, value.1 as int, count - 1)->Some_0.0;
    let mut table = rest.0;
    proof {
        crate::dict::lemma_pairs_prepend(key.0@, value.0.deep_view(), rest_pairs);
        assert(seq![(key.0@, value.0.deep_view())] + rest_pairs == spec_parse_value_pairs(
            s@,
            pos as int,
            count as int,
        )->Some_0.0);
    }
    if table.contains_key(key.0.as_str()) {
        Some((table, rest.1))
    } else {
        table.insert(key.0, value.0);
        Some((table, rest.1))
    }
}


/// A table of text properties on the wire: each key, then its value.
pub open spec fn enc_str_pairs(pairs: Seq<(Seq<char>, Seq<char>)>) -> Seq<char>
    decreases pairs.len(),
{
    if pairs.len() == 0 {
        Seq::empty()
    } else {
        enc_str(pairs.first().0) + enc_str(pairs.first().1) + enc_str_pairs(pairs.drop_first())
    }
}

/// A table of text properties the wire format can carry.
pub open spec fn str_pairs_bounded(pairs: Seq<(Seq<char>, Seq<char>)>) -> bool {
    &&& pairs.len() <= u64::MAX
    &&& forall|j: int|
        0 <= j < pairs.len() ==> (#[trigger] pairs[j]).0.len() <= u64::MAX && pairs[j].1.len()
            <= u64::MAX
}

/// Reads `count` key-value text entries.
pub open spec fn spec_parse_str_pairs(s: Seq<char>, pos: int, count: int) -> Option<
    (Seq<(Seq<char>, Seq<char>)>, int),
>
    decreases count,
{
    if count <= 0 {
        Some((Seq::empty(), pos))
    } else {
        match spec_parse_str(s, pos) {
            None => None,
            Some(key) => match spec_parse_str(s, key.1) {
                None => None,
                Some(value) => match spec_parse_str_pairs(s, value.1, count - 1) {
                    None => None,
                    Some(rest) => Some((seq![(key.0, value.0)] + rest.0, rest.1)),
                },
            },
        }
    }
}

/// Encoded text entries read back as themselves.
pub proof fn lemma_parse_str_pairs_enc(
    pairs: Seq<(Seq<char>, Seq<char>)>,
    s: Seq<char>,
    pos: int,
)
    requires
        0 <= pos,
        str_pairs_bounded(pairs),
        pos + enc_str_pairs(pairs).len() <= s.len(),
        s.subrange(pos, pos + enc_str_pairs(pairs).len()) == enc_str_pairs(pairs),
    ensures
        spec_parse_str_pairs(s, pos, pairs.len() as int) == Some((
            pairs,
            pos + enc_str_pairs(pairs).len(),
        )),
    decreases pairs.len(),
{
    if pairs.len() > 0 {
        let key = pairs.first().0;
        let value = pairs.first().1;
        let head = enc_str(key) + enc_str(value);
        let tail = enc_str_pairs(pairs.drop_first());
        assert(enc_str_pairs(pairs) == head + tail);
        lemma_subrange_concat(s, pos, head, tail);
        assert(head + tail =~= enc_str(key) + (enc_str(value) + tail));
        lemma_subrange_concat(s, pos, enc_str(key), enc_str(value) + tail);
        let p1 = pos + enc_str(key).len();
        lemma_subrange_concat(s, p1, enc_str(value), tail);
        lemma_parse_str_enc(key, s, pos);
        lemma_parse_str_enc(value, s, p1);
        let p2 = p1 + enc_str(value).len();
        assert(str_pairs_bounded(pairs.drop_first())) by {
            assert(forall|j: int|
                0 <= j < pairs.drop_first().len() ==> pairs.drop_first()[j] == pairs[j + 1]);
        }
        lemma_parse_str_pairs_enc(pairs.drop_first(), s, p2);
        assert(seq![(key, value)] + pairs.drop_first() =~= pairs);
    }
}

/// Reads `count` text entries into a fresh table, later entries
/// overwriting earlier keys.
pub fn parse_str_dict(s: &str, pos: usize, count: u64) -> (r: Option<(Dict<String>, usize)>)
    ensures
        r is Some <==> spec_parse_str_pairs(s@, pos as int, count as int) is Some,
        r matches Some(p) ==> spec_parse_str_pairs(s@, pos as int, count as int) matches Some(sp)
            && {
            &&& p.0.wf()
            &&& p.0.to_map() == crate::dict::pairs_map(sp.0)
            &&& p.1 as int == sp.1
        },
    decreases count,
{
    if count == 0 {
        let empty: Dict<String> = Dict::new();
        return Some((empty, pos));
    }
    let key = match parse_str(s, pos) {
        Some(p) => p,
        None => {
            return None;
        },
    };
    let value = match parse_str(s, key.1) {
        Some(p) => p,
        None => {
            return None;
        },
    };
    let rest = match parse_str_dict(s, value.1, count - 1) {
        Some(p) => p,
        None => {
            return None;
        },
    };
    let ghost rest_pairs = spec_parse_str_pairs(s@, value.1 as int, count - 1)->Some_0.0;
    let mut table = rest.0;
    proof {
        crate::dict::lemma_pairs_prepend(key.0@, value.0@, rest_pairs);
        assert(seq![(key.0@, value.0@)] + rest_pairs == spec_parse_str_pairs(
            s@,
            pos as int,
            count as int,
        )->Some_0.0);
    }
    if table.contains_key(key.0.as_str()) {
        Some((table, rest.1))
    } else {
        table.insert(key.0, value.0);
        Some((table, rest.1))
    }
}

/// A byte sequence on the wire, one byte after the other.
pub open spec fn enc_byte_seq(bytes: Seq<u8>) -> Seq<char>
    decreases bytes.len(),
{
    if bytes.len() == 0 {
        Seq::empty()
    } else {
        enc_u8(bytes.first()) + enc_byte_seq(bytes.drop_first())
    }
}

/// Reads `count` bytes.
pub open spec fn spec_parse_byte_seq(s: Seq<char>, pos: int, count: int) -> Option<
    (Seq<u8>, int),
>
    decreases count,
{
    if count <= 0 {
        Some((Seq::empty(), pos))
    } else {
        match spec_parse_u8(s, pos) {
            None => None,
            Some(byte) => match spec_parse_byte_seq(s, byte.1, count - 1) {
                None => None,
                Some(rest) => Some((seq![byte.0] + rest.0, rest.1)),
            },
        }
    }
}

/// An encoded byte sequence reads back as itself.
pub proof fn lemma_parse_byte_seq_enc(bytes: Seq<u8>, s: Seq<char>, pos: int)
    requires
        0 <= pos,
        bytes.len() <= u64::MAX,
        pos + enc_byte_seq(bytes).len() <= s.len(),
        s.subrange(pos, pos + enc_byte_seq(bytes).len()) == enc_byte_seq(bytes),
    ensures
        spec_parse_byte_seq(s, pos, bytes.len() as int) == Some((
            bytes,
            pos + enc_byte_seq(bytes).len(),
        )),
    decreases bytes.len(),
{
    if bytes.len() > 0 {
        let head = enc_u8(bytes.first());
        let tail = enc_byte_seq(bytes.drop_first());
        crate::text::lemma_dec_fixed_len(bytes.first() as nat, 3);
        assert(enc_byte_seq(bytes) == head + tail);
        lemma_subrange_concat(s, pos, head, tail);
        lemma_parse_u8_enc(bytes.first(), s, pos);
        lemma_parse_byte_seq_enc(bytes.drop_first(), s, pos + 3);
        assert(seq![bytes.first()] + bytes.drop_first() =~= bytes);
    }
}

/// Reads `count` bytes off the wire.
pub fn parse_bytes(s: &str, pos: usize, count: u64) -> (r: Option<(Vec<u8>, usize)>)
    ensures
        r is Some <==> spec_parse_byte_seq(s@, pos as int, count as int) is Some,
        r matches Some(p) ==> spec_parse_byte_seq(s@, pos as int, count as int) == Some((
            p.0@,
            p.1 as int,
        )),
    decreases count,
{
    if count == 0 {
        let empty: Vec<u8> = Vec::new();
        proof {
            assert(empty@ =~= Seq::<u8>::empty());
        }
        return Some((empty, pos));
    }
    let byte = match parse_u8(s, pos) {
        Some(p) => p,
        None => {
            return None;
        },
    };
    let rest = match parse_bytes(s, byte.1, count - 1) {
        Some(p) => p,
        None => {
            return None;
        },
    };
    let mut bytes = rest.0;
    bytes.insert(0, byte.0);
    proof {
        assert(bytes@ =~= seq![byte.0] + spec_parse_byte_seq(
            s@,
            byte.1 as int,
            count - 1,
        )->Some_0.0);
    }
    Some((bytes, rest.1))
}


/// A claim on the wire: a variant tag, then the variant's fields; a
/// combined claim carries its criterion count and then each criterion.
pub open spec fn enc_claim(claim: ClaimTypeModel) -> Seq<char>
    decreases claim, 1int,
{
    match claim {
        ClaimTypeModel::LanguageProficiency { language, min_level } => {
            seq!['L'] + enc_str(language) + enc_level(min_level)
        },
        ClaimTypeModel::PerformanceThreshold { min_percentage } => {
            seq!['P'] + enc_u8(min_percentage)
        },
        ClaimTypeModel::CompletionDate { after_date } => seq!['D'] + enc_i64(after_date),
        ClaimTypeModel::Combined { criteria } => {
            seq!['C'] + enc_u64(criteria.len() as int) + enc_claim_seq(criteria)
        },
    }
}

/// A list of claims on the wire, one after the other.
pub open spec fn enc_claim_seq(claims: Seq<ClaimTypeModel>) -> Seq<char>
    decreases claims, 0int,
{
    if claims.len() == 0 {
        Seq::empty()
    } else {
        enc_claim(claims.first()) + enc_claim_seq(claims.drop_first())
    }
}

/// A claim the wire format can carry.
pub open spec fn claim_bounded(claim: ClaimTypeModel) -> bool
    decreases claim, 1int,
{
    match claim {
        ClaimTypeModel::LanguageProficiency { language, .. } => language.len() <= u64::MAX,
        ClaimTypeModel::PerformanceThreshold { .. } => true,
        ClaimTypeModel::CompletionDate { .. } => true,
        ClaimTypeModel::Combined { criteria } => criteria.len() <= u64::MAX
            && claim_seq_bounded(criteria),
    }
}

/// A list of claims the wire format can carry.
pub open spec fn claim_seq_bounded(claims: Seq<ClaimTypeModel>) -> bool
    decreases claims, 0int,
{
    if claims.len() == 0 {
        true
    } else {
        claim_bounded(claims.first()) && claim_seq_bounded(claims.drop_first())
    }
}

/// Reads one claim; the fuel bounds the nesting the reader will follow.
pub open spec fn spec_parse_claim(s: Seq<char>, pos: int, fuel: nat) -> Option<
    (ClaimTypeModel, int),
>
    decreases fuel,
{
    if fuel == 0 || pos < 0 || pos >= s.len() {
        None
    } else if s[pos] == 'L' {
        match spec_parse_str(s, pos + 1) {
            None => None,
            Some(language) => match spec_parse_level(s, language.1) {
                None => None,
                Some(level) => Some(
                    (
                        ClaimTypeModel::LanguageProficiency {
                            language: language.0,
                            min_level: level.0,
                        },
                        level.1,
                    ),
                ),
            },
        }
    } else if s[pos] == 'P' {
        match spec_parse_u8(s, pos + 1) {
            None => None,
            Some(p) => Some(
                (ClaimTypeModel::PerformanceThreshold { min_percentage: p.0 }, p.1),
            ),
        }
    } else if s[pos] == 'D' {
        match spec_parse_i64(s, pos + 1) {
            None => None,
            Some(p) => Some((ClaimTypeModel::CompletionDate { after_date: p.0 }, p.1)),
        }
    } else if s[pos] == 'C' {
        match spec_parse_u64(s, pos + 1) {
            None => None,
            Some(header) => match spec_parse_claim_seq(
                s,
                header.1,
                header.0 as int,
                (fuel - 1) as nat,
            ) {
                None => None,
                Some(p) => Some((ClaimTypeModel::Combined { criteria: p.0 }, p.1)),
            },
        }
    } else {
        None
    }
}

/// Reads `count` claims, one after the other.
pub open spec fn spec_parse_claim_seq(s: Seq<char>, pos: int, count: int, fuel: nat) -> Option<
    (Seq<ClaimTypeModel>, int),
>
    decreases fuel,
{
    if count <= 0 {
        Some((Seq::empty(), pos))
    } else if fuel == 0 {
        None
    } else {
        match spec_parse_claim(s, pos, (fuel - 1) as nat) {
            None => None,
            Some(first) => match spec_parse_claim_seq(s, first.1, count - 1, (fuel - 1) as nat) {
                None => None,
                Some(rest) => Some((seq![first.0] + rest.0, rest.1)),
            },
        }
    }
}

/// The fuel one claim's encoding can consume.
pub open spec fn claim_fuel(claim: ClaimTypeModel) -> nat
    decreases claim, 1int,
{
    match claim {
        ClaimTypeModel::Combined { criteria } => 1 + claim_seq_fuel(criteria),
        _ => 1,
    }
}

/// The fuel a claim list's encoding can consume; an empty list is read
/// without touching the fuel.
pub open spec fn claim_seq_fuel(claims: Seq<ClaimTypeModel>) -> nat
    decreases claims, 0int,
{
    if claims.len() == 0 {
        0
    } else {
        1 + claim_fuel(claims.first()) + claim_seq_fuel(claims.drop_first())
    }
}

/// The fuel a claim can consume stays below its encoded length.
pub proof fn lemma_claim_fuel_bound(claim: ClaimTypeModel)
    ensures
        claim_fuel(claim) + 1 <= enc_claim(claim).len(),
    decreases claim, 1int,
{
    match claim {
        ClaimTypeModel::LanguageProficiency { language, .. } => {
            crate::text::lemma_dec_fixed_len(language.len(), 20);
        },
        ClaimTypeModel::PerformanceThreshold { min_percentage } => {
            crate::text::lemma_dec_fixed_len(min_percentage as nat, 3);
        },
        ClaimTypeModel::CompletionDate { after_date } => {
            if after_date >= 0 {
                crate::text::lemma_dec_fixed_len(after_date as nat, 19);
            } else {
                crate::text::lemma_dec_fixed_len((-(after_date as int)) as nat, 19);
            }
        },
        ClaimTypeModel::Combined { criteria } => {
            lemma_claim_seq_fuel_bound(criteria);
            crate::text::lemma_dec_fixed_len(criteria.len(), 20);
        },
    }
}

/// The fuel a claim list can consume stays within its encoded length.
pub proof fn lemma_claim_seq_fuel_bound(claims: Seq<ClaimTypeModel>)
    ensures
        claim_seq_fuel(claims) <= enc_claim_seq(claims).len(),
    decreases claims, 0int,
{
    if claims.len() > 0 {
        lemma_claim_fuel_bound(claims.first());
        lemma_claim_seq_fuel_bound(claims.drop_first());
    }
}

/// An encoded claim reads back as itself, with any fuel at least its own.
pub proof fn lemma_parse_claim_enc(claim: ClaimTypeModel, s: Seq<char>, pos: int, fuel: nat)
    requires
        0 <= pos,
        claim_bounded(claim),
        fuel >= claim_fuel(claim),
        pos + enc_claim(claim).len() <= s.len(),
        s.subrange(pos, pos + enc_claim(claim).len()) == enc_claim(claim),
    ensures
        spec_parse_claim(s, pos, fuel) == Some((claim, pos + enc_claim(claim).len())),
    decreases claim, 1int,
{
    match claim {
        ClaimTypeModel::LanguageProficiency { language, min_level } => {
            crate::text::lemma_dec_fixed_len(language.len() as nat, 20);
            let body = enc_str(language) + enc_level(min_level);
            assert(enc_claim(claim) =~= seq!['L'] + body);
            lemma_subrange_concat(s, pos, seq!['L'], body);
            assert(s[pos] == s.subrange(pos, pos + 1)[0]);
            lemma_subrange_concat(s, pos + 1, enc_str(language), enc_level(min_level));
            lemma_parse_str_enc(language, s, pos + 1);
            lemma_parse_level_enc(min_level, s, pos + 1 + enc_str(language).len());
        },
        ClaimTypeModel::PerformanceThreshold { min_percentage } => {
            crate::text::lemma_dec_fixed_len(min_percentage as nat, 3);
            lemma_subrange_concat(s, pos, seq!['P'], enc_u8(min_percentage));
            assert(s[pos] == s.subrange(pos, pos + 1)[0]);
            lemma_parse_u8_enc(min_percentage, s, pos + 1);
        },
        ClaimTypeModel::CompletionDate { after_date } => {
            if after_date >= 0 {
                crate::text::lemma_dec_fixed_len(after_date as nat, 19);
            } else {
                crate::text::lemma_dec_fixed_len((-(after_date as int)) as nat, 19);
            }
            lemma_subrange_concat(s, pos, seq!['D'], enc_i64(after_date));
            assert(s[pos] == s.subrange(pos, pos + 1)[0]);
            lemma_parse_i64_enc(after_date, s, pos + 1);
        },
        ClaimTypeModel::Combined { criteria } => {
            let header = enc_u64(criteria.len() as int);
            let body = enc_claim_seq(criteria);
            lemma_u64_fits_twenty_digits(criteria.len() as u64);
            lemma_dec_fixed_value(criteria.len() as nat, 20);
            assert(enc_claim(claim) =~= seq!['C'] + (header + body));
            lemma_subrange_concat(s, pos, seq!['C'], header + body);
            assert(s[pos] == s.subrange(pos, pos + 1)[0]);
            lemma_subrange_concat(s, pos + 1, header, body);
            lemma_parse_u64_enc(criteria.len() as u64, s, pos + 1);
            lemma_parse_claim_seq_enc(criteria, s, pos + 21, (fuel - 1) as nat);
        },
    }
}

/// An encoded claim list reads back as itself.
pub proof fn lemma_parse_claim_seq_enc(
    claims: Seq<ClaimTypeModel>,
    s: Seq<char>,
    pos: int,
    fuel: nat,
)
    requires
        0 <= pos,
        claims.len() <= u64::MAX,
        claim_seq_bounded(claims),
        fuel >= claim_seq_fuel(claims),
        pos + enc_claim_seq(claims).len() <= s.len(),
        s.subrange(pos, pos + enc_claim_seq(claims).len()) == enc_claim_seq(claims),
    ensures
        spec_parse_claim_seq(s, pos, claims.len() as int, fuel) == Some((
            claims,
            pos + enc_claim_seq(claims).len(),
        )),
    decreases claims, 0int,
{
    if claims.len() > 0 {
        let head = enc_claim(claims.first());
        let tail = enc_claim_seq(claims.drop_first());
        assert(enc_claim_seq(claims) == head + tail);
        lemma_subrange_concat(s, pos, head, tail);
        lemma_parse_claim_enc(claims.first(), s, pos, (fuel - 1) as nat);
        lemma_parse_claim_seq_enc(claims.drop_first(), s, pos + head.len(), (fuel - 1) as nat);
        assert(seq![claims.first()] + claims.drop_first() =~= claims);
    }
}

/// Renders one claim for the wire.
pub fn encode_claim(claim: &ClaimType) -> (r: String)
    ensures
        r@ == enc_claim(claim_model(*claim)),
        claim_bounded(claim_model(*claim)),
    decreases *claim, 1int,
{
    match claim {
        ClaimType::LanguageProficiency { language, min_level } => {
            let mut r = String::from_str("L");
            r.append(enc_str_exec(language.as_str()).as_str());
            r.append(dec_fixed_exec(min_level.to_numeric() as u64, 1).as_str());
            proof {
                reveal_strlit("L");
                assert(dec_fixed(rank(*min_level) as nat / 10, 0) =~= Seq::<char>::empty());
                assert(dec_fixed(rank(*min_level) as nat, 1) =~= enc_level(*min_level));
                assert(r@ =~= enc_claim(claim_model(*claim)));
            }
            r
        },
        ClaimType::PerformanceThreshold { min_percentage } => {
            let mut r = String::from_str("P");
            r.append(dec_fixed_exec(*min_percentage as u64, 3).as_str());
            proof {
                reveal_strlit("P");
                assert(r@ =~= enc_claim(claim_model(*claim)));
            }
            r
        },
        ClaimType::CompletionDate { after_date } => {
            let mut r = String::from_str("D");
            r.append(enc_i64_exec(*after_date).as_str());
            proof {
                reveal_strlit("D");
                assert(r@ =~= enc_claim(claim_model(*claim)));
            }
            r
        },
        ClaimType::Combined { criteria } => {
            let mut r = String::from_str("C");
            r.append(dec_fixed_exec(criteria.len() as u64, 20).as_str());
            r.append(encode_claim_list(criteria, 0).as_str());
            proof {
                reveal_strlit("C");
                crate::zk_proof::lemma_claim_list_model(criteria@);
                assert(claim_list_model(criteria@).skip(0) =~= claim_list_model(criteria@));
                assert(r@ =~= enc_claim(claim_model(*claim)));
            }
            r
        },
    }
}

/// Renders the claims from position `from` on for the wire.
fn encode_claim_list(claims: &Vec<ClaimType>, from: usize) -> (r: String)
    requires
        from <= claims@.len(),
    ensures
        r@ == enc_claim_seq(claim_list_model(claims@).skip(from as int)),
        claim_seq_bounded(claim_list_model(claims@).skip(from as int)),
    decreases claims@, 0int, claims@.len() - from,
{
    proof {
        crate::zk_proof::lemma_claim_list_model(claims@);
    }
    let ghost models = claim_list_model(claims@).skip(from as int);
    if from == claims.len() {
        let r = String::new();
        proof {
            assert(r@ =~= enc_claim_seq(models));
        }
        r
    } else {
        let mut r = encode_claim(&claims[from]);
        r.append(encode_claim_list(claims, from + 1).as_str());
        proof {
            assert(models.first() == claim_model(claims@[from as int]));
            assert(models.drop_first() =~= claim_list_model(claims@).skip(from + 1));
            assert(r@ =~= enc_claim_seq(models));
        }
        r
    }
}

/// Renders a counted string for the wire.
pub fn enc_str_exec(t: &str) -> (r: String)
    ensures
        r@ == enc_str(t@),
        t@.len() <= u64::MAX,
{
    let n = t.unicode_len();
    let mut r = dec_fixed_exec(n as u64, 20);
    r.append(t);
    proof {
        assert(r@ =~= enc_str(t@));
    }
    r
}

/// Reads one claim off the wire; the fuel bounds the nesting followed.
pub fn parse_claim(s: &str, pos: usize, fuel: u64) -> (r: Option<(ClaimType, usize)>)
    ensures
        r is Some <==> spec_parse_claim(s@, pos as int, fuel as nat) is Some,
        r matches Some(p) ==> spec_parse_claim(s@, pos as int, fuel as nat) == Some((
            claim_model(p.0),
            p.1 as int,
        )),
    decreases fuel, 1int,
{
    if fuel == 0 {
        return None;
    }
    let n = s.unicode_len();
    if pos >= n {
        return None;
    }
    let tag = s.get_char(pos);
    if tag == 'L' {
        let language = match parse_str(s, pos + 1) {
            Some(p) => p,
            None => {
                return None;
            },
        };
        match parse_level(s, language.1) {
            Some(level) => Some(
                (
                    ClaimType::LanguageProficiency {
                        language: language.0,
                        min_level: level.0,
                    },
                    level.1,
                ),
            ),
            None => None,
        }
    } else if tag == 'P' {
        match parse_u8(s, pos + 1) {
            Some(p) => Some((ClaimType::PerformanceThreshold { min_percentage: p.0 }, p.1)),
            None => None,
        }
    } else if tag == 'D' {
        match parse_i64(s, pos + 1) {
            Some(p) => Some((ClaimType::CompletionDate { after_date: p.0 }, p.1)),
            None => None,
        }
    } else if tag == 'C' {
        let header = match parse_u64(s, pos + 1) {
            Some(p) => p,
            None => {
                return None;
            },
        };
        match parse_claim_list(s, header.1, header.0, fuel - 1) {
            Some(p) => Some((ClaimType::Combined { criteria: p.0 }, p.1)),
            None => None,
        }
    } else {
        None
    }
}

/// Reads `count` claims off the wire.
fn parse_claim_list(s: &str, pos: usize, count: u64, fuel: u64) -> (r: Option<
    (Vec<ClaimType>, usize),
>)
    ensures
        r is Some <==> spec_parse_claim_seq(s@, pos as int, count as int, fuel as nat) is Some,
        r matches Some(p) ==> spec_parse_claim_seq(s@, pos as int, count as int, fuel as nat)
            == Some((claim_list_model(p.0@), p.1 as int)),
    decreases fuel, 0int,
{
    if count == 0 {
        let empty: Vec<ClaimType> = Vec::new();
        proof {
            assert(claim_list_model(empty@) =~= Seq::<ClaimTypeModel>::empty());
        }
        return Some((empty, pos));
    }
    if fuel == 0 {
        return None;
    }
    let first = match parse_claim(s, pos, fuel - 1) {
        Some(p) => p,
        None => {
            return None;
        },
    };
    let rest = match parse_claim_list(s, first.1, count - 1, fuel - 1) {
        Some(p) => p,
        None => {
            return None;
        },
    };
    let mut claims = rest.0;
    let ghost rest_models = claim_list_model(rest.0@);
    claims.insert(0, first.0);
    proof {
        crate::zk_proof::lemma_claim_list_model(claims@);
        crate::zk_proof::lemma_claim_list_model(rest.0@);
        assert(claim_list_model(claims@) =~= seq![claim_model(first.0)] + rest_models) by {
            assert forall|j: int| 0 <= j < claims@.len() implies claim_list_model(claims@)[j]
                == (seq![claim_model(first.0)] + rest_models)[j] by {
                if j > 0 {
                    assert(claims@[j] == rest.0@[j - 1]);
                }
            }
        }
    }
    Some((claims, rest.1))
}


/// Renders a requirement value for the wire.
fn encode_value(value: &ClaimValue) -> (r: String)
    ensures
        r@ == enc_value(value.deep_view()),
        value_bounded(value.deep_view()),
{
    match value {
        ClaimValue::Text(t) => {
            let mut r = String::from_str("T");
            r.append(enc_str_exec(t.as_str()).as_str());
            proof {
                reveal_strlit("T");
                assert(r@ =~= enc_value(value.deep_view()));
            }
            r
        },
        ClaimValue::Number(n) => {
            let mut r = String::from_str("N");
            r.append(dec_fixed_exec(*n, 20).as_str());
            proof {
                reveal_strlit("N");
                assert(r@ =~= enc_value(value.deep_view()));
            }
            r
        },
    }
}

/// Renders a requirements table's entries from position `from` on.
fn encode_value_entries(table: &Dict<ClaimValue>, from: usize) -> (r: String)
    requires
        from <= table.entries_seq().len(),
    ensures
        r@ == enc_value_pairs(table.entries_seq().skip(from as int)),
        forall|j: int|
            from <= j < table.entries_seq().len() ==> (#[trigger] table.entries_seq()[j]).0.len()
                <= u64::MAX && value_bounded(table.entries_seq()[j].1),
    decreases table.entries_seq().len() - from,
{
    let ghost pairs = table.entries_seq().skip(from as int);
    if from == table.entry_count() {
        let r = String::new();
        proof {
            assert(r@ =~= enc_value_pairs(pairs));
        }
        r
    } else {
        let entry = table.entry_at(from);
        let mut r = enc_str_exec(entry.0.as_str());
        r.append(encode_value(entry.1).as_str());
        r.append(encode_value_entries(table, from + 1).as_str());
        proof {
            assert(pairs.first() == table.entries_seq()[from as int]);
            assert(pairs.drop_first() =~= table.entries_seq().skip(from + 1));
            assert(r@ =~= enc_value_pairs(pairs));
        }
        r
    }
}

/// Renders a properties table's entries from position `from` on.
fn encode_str_entries(table: &Dict<String>, from: usize) -> (r: String)
    requires
        from <= table.entries_seq().len(),
    ensures
        r@ == enc_str_pairs(table.entries_seq().skip(from as int)),
        forall|j: int|
            from <= j < table.entries_seq().len() ==> (#[trigger] table.entries_seq()[j]).0.len()
                <= u64::MAX && table.entries_seq()[j].1.len() <= u64::MAX,
    decreases table.entries_seq().len() - from,
{
    let ghost pairs = table.entries_seq().skip(from as int);
    if from == table.entry_count() {
        let r = String::new();
        proof {
            assert(r@ =~= enc_str_pairs(pairs));
        }
        r
    } else {
        let entry = table.entry_at(from);
        let mut r = enc_str_exec(entry.0.as_str());
        r.append(enc_str_exec(entry.1.as_str()).as_str());
        r.append(encode_str_entries(table, from + 1).as_str());
        proof {
            assert(pairs.first() == table.entries_seq()[from as int]);
            assert(pairs.drop_first() =~= table.entries_seq().skip(from + 1));
            assert(r@ =~= enc_str_pairs(pairs));
        }
        r
    }
}

/// Renders the bytes from position `from` on.
fn encode_byte_list(bytes: &Vec<u8>, from: usize) -> (r: String)
    requires
        from <= bytes@.len(),
    ensures
        r@ == enc_byte_seq(bytes@.skip(from as int)),
    decreases bytes@.len() - from,
{
    let ghost tail = bytes@.skip(from as int);
    if from == bytes.len() {
        let r = String::new();
        proof {
            assert(r@ =~= enc_byte_seq(tail));
        }
        r
    } else {
        let mut r = dec_fixed_exec(bytes[from] as u64, 3);
        r.append(encode_byte_list(bytes, from + 1).as_str());
        proof {
            assert(tail.first() == bytes@[from as int]);
            assert(tail.drop_first() =~= bytes@.skip(from + 1));
            assert(r@ =~= enc_byte_seq(tail));
        }
        r
    }
}

/// The public inputs on the wire: requirement count and entries, the
/// reported result, and the certificate hash.
#[verifier::opaque]
pub open spec fn enc_public(inputs: crate::zk_proof::PublicInputs) -> Seq<char> {
    enc_u64(inputs.requirements.entries_seq().len() as int) + enc_value_pairs(
        inputs.requirements.entries_seq(),
    ) + enc_bool(inputs.verification_result) + enc_str(inputs.certificate_hash@)
}

/// The proof data on the wire: byte count and bytes, circuit name, and
/// verification-key hash.
#[verifier::opaque]
pub open spec fn enc_proof_data(data: crate::zk_proof::ProofData) -> Seq<char> {
    enc_u64(data.proof_bytes@.len() as int) + enc_byte_seq(data.proof_bytes@) + enc_str(
        data.circuit_id@,
    ) + enc_str(data.vk_hash@)
}

/// The metadata on the wire: version, platform, property count and
/// entries.
#[verifier::opaque]
pub open spec fn enc_metadata(metadata: crate::zk_proof::ProofMetadata) -> Seq<char> {
    enc_str(metadata.version@) + enc_str(metadata.platform@) + enc_u64(
        metadata.properties.entries_seq().len() as int,
    ) + enc_str_pairs(metadata.properties.entries_seq())
}

/// A whole envelope on the wire.
#[verifier::opaque]
pub open spec fn enc_envelope(claim: crate::zk_proof::ZkProofClaim) -> Seq<char> {
    enc_str(claim.proof_id@) + enc_claim(claim_model(claim.claim_type)) + enc_public(
        claim.public_inputs,
    ) + enc_proof_data(claim.proof_data) + enc_i64(claim.generated_at) + enc_metadata(
        claim.metadata,
    )
}

/// An envelope the wire format can carry: every count fits its field.
pub open spec fn encodable(claim: crate::zk_proof::ZkProofClaim) -> bool {
    &&& claim.proof_id@.len() <= u64::MAX
    &&& claim_bounded(claim_model(claim.claim_type))
    &&& value_pairs_bounded(claim.public_inputs.requirements.entries_seq())
    &&& claim.public_inputs.certificate_hash@.len() <= u64::MAX
    &&& claim.proof_data.proof_bytes@.len() <= u64::MAX
    &&& claim.proof_data.circuit_id@.len() <= u64::MAX
    &&& claim.proof_data.vk_hash@.len() <= u64::MAX
    &&& claim.metadata.version@.len() <= u64::MAX
    &&& claim.metadata.platform@.len() <= u64::MAX
    &&& str_pairs_bounded(claim.metadata.properties.entries_seq())
}

/// Everything an envelope parse yields.
pub struct EnvelopeParts {
    pub proof_id: Seq<char>,
    pub claim: ClaimTypeModel,
    pub requirements: Seq<(Seq<char>, ClaimValueModel)>,
    pub verification_result: bool,
    pub certificate_hash: Seq<char>,
    pub proof_bytes: Seq<u8>,
    pub circuit_id: Seq<char>,
    pub vk_hash: Seq<char>,
    pub generated_at: i64,
    pub version: Seq<char>,
    pub platform: Seq<char>,
    pub properties: Seq<(Seq<char>, Seq<char>)>,
    pub end: int,
}

/// Reads a whole envelope: every field in order, with the input's length
/// as the nesting fuel.
#[verifier::opaque]
pub open spec fn spec_parse_envelope(s: Seq<char>) -> Option<EnvelopeParts> {
    match spec_parse_str(s, 0) {
        None => None,
        Some(proof_id) => match spec_parse_claim(s, proof_id.1, s.len()) {
            None => None,
            Some(claim) => match spec_parse_u64(s, claim.1) {
                None => None,
                Some(req_count) => match spec_parse_value_pairs(
                    s,
                    req_count.1,
                    req_count.0 as int,
                ) {
                    None => None,
                    Some(requirements) => match spec_parse_bool(s, requirements.1) {
                        None => None,
                        Some(result_bit) => match spec_parse_str(s, result_bit.1) {
                            None => None,
                            Some(certificate_hash) => match spec_parse_u64(
                                s,
                                certificate_hash.1,
                            ) {
                                None => None,
                                Some(byte_count) => match spec_parse_byte_seq(
                                    s,
                                    byte_count.1,
                                    byte_count.0 as int,
                                ) {
                                    None => None,
                                    Some(proof_bytes) => match spec_parse_str(s, proof_bytes.1) {
                                        None => None,
                                        Some(circuit_id) => match spec_parse_str(
                                            s,
                                            circuit_id.1,
                                        ) {
                                            None => None,
                                            Some(vk_hash) => match spec_parse_i64(s, vk_hash.1) {
                                                None => None,
                                                Some(generated_at) => match spec_parse_str(
                                                    s,
                                                    generated_at.1,
                                                ) {
                                                    None => None,
                                                    Some(version) => match spec_parse_str(
                                                        s,
                                                        version.1,
                                                    ) {
                                                        None => None,
                                                        Some(platform) => match spec_parse_u64(
                                                            s,
                                                            platform.1,
                                                        ) {
                                                            None => None,
                                                            Some(prop_count) => match
                                                                spec_parse_str_pairs(
                                                                s,
                                                                prop_count.1,
                                                                prop_count.0 as int,
                                                            ) {
                                                                None => None,
                                                                Some(properties) => Some(
                                                                    EnvelopeParts {
                                                                        proof_id: proof_id.0,
                                                                        claim: claim.0,
                                                                        requirements:
                                                                            requirements.0,
                                                                        verification_result:
                                                                            result_bit.0,
                                                                        certificate_hash:
                                                                            certificate_hash.0,
                                                                        proof_bytes:
                                                                            proof_bytes.0,
                                                                        circuit_id: circuit_id.0,
                                                                        vk_hash: vk_hash.0,
                                                                        generated_at:
                                                                            generated_at.0,
                                                                        version: version.0,
                                                                        platform: platform.0,
                                                                        properties: properties.0,
                                                                        end: properties.1,
                                                                    },
                                                                ),
                                                            },
                                                        },
                                                    },
                                                },
                                            },
                                        },
                                    },
                                },
                            },
                        },
                    },
                },
            },
        },
    }
}

/// Where the leading fields of an encoded envelope sit and what they
/// read as: identifier, claim, and public inputs.
pub open spec fn envelope_front_parsed(
    orig: crate::zk_proof::ZkProofClaim,
    s: Seq<char>,
) -> bool {
    let p1 = enc_str(orig.proof_id@).len() as int;
    let p2 = p1 + enc_claim(claim_model(orig.claim_type)).len();
    let p3 = p2 + 20;
    let p4 = p3 + enc_value_pairs(orig.public_inputs.requirements.entries_seq()).len();
    let p5 = p4 + 1;
    let p6 = p5 + enc_str(orig.public_inputs.certificate_hash@).len();
    &&& spec_parse_str(s, 0) == Some((orig.proof_id@, p1))
    &&& spec_parse_claim(s, p1, s.len()) == Some((claim_model(orig.claim_type), p2))
    &&& spec_parse_u64(s, p2) == Some(
        (orig.public_inputs.requirements.entries_seq().len() as u64, p3),
    )
    &&& spec_parse_value_pairs(
        s,
        p3,
        orig.public_inputs.requirements.entries_seq().len() as int,
    ) == Some((orig.public_inputs.requirements.entries_seq(), p4))
    &&& spec_parse_bool(s, p4) == Some((orig.public_inputs.verification_result, p5))
    &&& spec_parse_str(s, p5) == Some((orig.public_inputs.certificate_hash@, p6))
}

/// Where the trailing fields of an encoded envelope sit and what they
/// read as: proof data, timestamp, and metadata. `pos` is where the
/// proof data group starts.
pub open spec fn envelope_tail_parsed(
    orig: crate::zk_proof::ZkProofClaim,
    s: Seq<char>,
    pos: int,
) -> bool {
    let p7 = pos + 20;
    let p8 = p7 + enc_byte_seq(orig.proof_data.proof_bytes@).len();
    let p9 = p8 + enc_str(orig.proof_data.circuit_id@).len();
    let p10 = p9 + enc_str(orig.proof_data.vk_hash@).len();
    let p11 = p10 + 20;
    let p12 = p11 + enc_str(orig.metadata.version@).len();
    let p13 = p12 + enc_str(orig.metadata.platform@).len();
    let p14 = p13 + 20;
    &&& spec_parse_u64(s, pos) == Some((orig.proof_data.proof_bytes@.len() as u64, p7))
    &&& spec_parse_byte_seq(s, p7, orig.proof_data.proof_bytes@.len() as int) == Some(
        (orig.proof_data.proof_bytes@, p8),
    )
    &&& spec_parse_str(s, p8) == Some((orig.proof_data.circuit_id@, p9))
    &&& spec_parse_str(s, p9) == Some((orig.proof_data.vk_hash@, p10))
    &&& spec_parse_i64(s, p10) == Some((orig.generated_at, p11))
    &&& spec_parse_str(s, p11) == Some((orig.metadata.version@, p12))
    &&& spec_parse_str(s, p12) == Some((orig.metadata.platform@, p13))
    &&& spec_parse_u64(s, p13) == Some(
        (orig.metadata.properties.entries_seq().len() as u64, p14),
    )
    &&& spec_parse_str_pairs(s, p14, orig.metadata.properties.entries_seq().len() as int)
        == Some(
        (orig.metadata.properties.entries_seq(), p14 + enc_str_pairs(
            orig.metadata.properties.entries_seq(),
        ).len()),
    )
}

/// Peels the public inputs group.
#[verifier::spinoff_prover]
proof fn lemma_pieces_public(inputs: crate::zk_proof::PublicInputs, s: Seq<char>, pos: int)
    requires
        0 <= pos,
        value_pairs_bounded(inputs.requirements.entries_seq()),
        inputs.certificate_hash@.len() <= u64::MAX,
        pos + enc_public(inputs).len() <= s.len(),
        s.subrange(pos, pos + enc_public(inputs).len()) == enc_public(inputs),
    ensures
        ({
            let p3 = pos + 20;
            let p4 = p3 + enc_value_pairs(inputs.requirements.entries_seq()).len();
            let p5 = p4 + 1;
            let p6 = p5 + enc_str(inputs.certificate_hash@).len();
            &&& spec_parse_u64(s, pos) == Some(
                (inputs.requirements.entries_seq().len() as u64, p3),
            )
            &&& spec_parse_value_pairs(
                s,
                p3,
                inputs.requirements.entries_seq().len() as int,
            ) == Some((inputs.requirements.entries_seq(), p4))
            &&& spec_parse_bool(s, p4) == Some((inputs.verification_result, p5))
            &&& spec_parse_str(s, p5) == Some((inputs.certificate_hash@, p6))
        }),
{
    reveal(enc_public);
    let e3 = enc_u64(inputs.requirements.entries_seq().len() as int);
    let e4 = enc_value_pairs(inputs.requirements.entries_seq());
    let e5 = enc_bool(inputs.verification_result);
    let e6 = enc_str(inputs.certificate_hash@);
    lemma_u64_fits_twenty_digits(inputs.requirements.entries_seq().len() as u64);
    crate::text::lemma_dec_fixed_len(inputs.requirements.entries_seq().len(), 20);
    lemma_subrange_concat(s, pos, e3 + e4 + e5, e6);
    lemma_subrange_concat(s, pos, e3 + e4, e5);
    lemma_subrange_concat(s, pos, e3, e4);
    lemma_parse_u64_enc(inputs.requirements.entries_seq().len() as u64, s, pos);
    lemma_parse_value_pairs_enc(inputs.requirements.entries_seq(), s, pos + 20);
    lemma_parse_bool_enc(inputs.verification_result, s, pos + 20 + e4.len());
    lemma_parse_str_enc(inputs.certificate_hash@, s, pos + 20 + e4.len() + 1);
}

/// Peels the proof data group.
#[verifier::spinoff_prover]
proof fn lemma_pieces_proof_data(data: crate::zk_proof::ProofData, s: Seq<char>, pos: int)
    requires
        0 <= pos,
        data.proof_bytes@.len() <= u64::MAX,
        data.circuit_id@.len() <= u64::MAX,
        data.vk_hash@.len() <= u64::MAX,
        pos + enc_proof_data(data).len() <= s.len(),
        s.subrange(pos, pos + enc_proof_data(data).len()) == enc_proof_data(data),
    ensures
        ({
            let p7 = pos + 20;
            let p8 = p7 + enc_byte_seq(data.proof_bytes@).len();
            let p9 = p8 + enc_str(data.circuit_id@).len();
            let p10 = p9 + enc_str(data.vk_hash@).len();
            &&& spec_parse_u64(s, pos) == Some((data.proof_bytes@.len() as u64, p7))
            &&& spec_parse_byte_seq(s, p7, data.proof_bytes@.len() as int) == Some(
                (data.proof_bytes@, p8),
            )
            &&& spec_parse_str(s, p8) == Some((data.circuit_id@, p9))
            &&& spec_parse_str(s, p9) == Some((data.vk_hash@, p10))
        }),
{
    reveal(enc_proof_data);
    let e7 = enc_u64(data.proof_bytes@.len() as int);
    let e8 = enc_byte_seq(data.proof_bytes@);
    let e9 = enc_str(data.circuit_id@);
    let e10 = enc_str(data.vk_hash@);
    lemma_u64_fits_twenty_digits(data.proof_bytes@.len() as u64);
    crate::text::lemma_dec_fixed_len(data.proof_bytes@.len(), 20);
    lemma_subrange_concat(s, pos, e7 + e8 + e9, e10);
    lemma_subrange_concat(s, pos, e7 + e8, e9);
    lemma_subrange_concat(s, pos, e7, e8);
    lemma_parse_u64_enc(data.proof_bytes@.len() as u64, s, pos);
    lemma_parse_byte_seq_enc(data.proof_bytes@, s, pos + 20);
    lemma_parse_str_enc(data.circuit_id@, s, pos + 20 + e8.len());
    lemma_parse_str_enc(data.vk_hash@, s, pos + 20 + e8.len() + e9.len());
}

/// Peels the metadata group.
#[verifier::spinoff_prover]
proof fn lemma_pieces_metadata(metadata: crate::zk_proof::ProofMetadata, s: Seq<char>, pos: int)
    requires
        0 <= pos,
        metadata.version@.len() <= u64::MAX,
        metadata.platform@.len() <= u64::MAX,
        str_pairs_bounded(metadata.properties.entries_seq()),
        pos + enc_metadata(metadata).len() <= s.len(),
        s.subrange(pos, pos + enc_metadata(metadata).len()) == enc_metadata(metadata),
    ensures
        ({
            let p12 = pos + enc_str(metadata.version@).len();
            let p13 = p12 + enc_str(metadata.platform@).len();
            let p14 = p13 + 20;
            &&& spec_parse_str(s, pos) == Some((metadata.version@, p12))
            &&& spec_parse_str(s, p12) == Some((metadata.platform@, p13))
            &&& spec_parse_u64(s, p13) == Some(
                (metadata.properties.entries_seq().len() as u64, p14),
            )
            &&& spec_parse_str_pairs(
                s,
                p14,
                metadata.properties.entries_seq().len() as int,
            ) == Some(
                (metadata.properties.entries_seq(), p14 + enc_str_pairs(
                    metadata.properties.entries_seq(),
                ).len()),
            )
        }),
{
    reveal(enc_metadata);
    let e12 = enc_str(metadata.version@);
    let e13 = enc_str(metadata.platform@);
    let e14 = enc_u64(metadata.properties.entries_seq().len() as int);
    let e15 = enc_str_pairs(metadata.properties.entries_seq());
    lemma_u64_fits_twenty_digits(metadata.properties.entries_seq().len() as u64);
    crate::text::lemma_dec_fixed_len(metadata.properties.entries_seq().len(), 20);
    lemma_subrange_concat(s, pos, e12 + e13 + e14, e15);
    lemma_subrange_concat(s, pos, e12 + e13, e14);
    lemma_subrange_concat(s, pos, e12, e13);
    lemma_parse_str_enc(metadata.version@, s, pos);
    lemma_parse_str_enc(metadata.platform@, s, pos + e12.len());
    lemma_parse_u64_enc(
        metadata.properties.entries_seq().len() as u64,
        s,
        pos + e12.len() + e13.len(),
    );
    lemma_parse_str_pairs_enc(
        metadata.properties.entries_seq(),
        s,
        pos + e12.len() + e13.len() + 20,
    );
}

/// Splits an encoded envelope into its six component groups.
#[verifier::rlimit(100)]
#[verifier::spinoff_prover]
proof fn lemma_envelope_groups(orig: crate::zk_proof::ZkProofClaim, s: Seq<char>)
    requires
        s == enc_envelope(orig),
    ensures
        ({
            let p1 = enc_str(orig.proof_id@).len() as int;
            let p2 = p1 + enc_claim(claim_model(orig.claim_type)).len();
            let q3 = p2 + enc_public(orig.public_inputs).len();
            let q4 = q3 + enc_proof_data(orig.proof_data).len();
            let q5 = q4 + enc_i64(orig.generated_at).len();
            &&& s.len() == q5 + enc_metadata(orig.metadata).len()
            &&& s.subrange(0, p1) == enc_str(orig.proof_id@)
            &&& s.subrange(p1, p2) == enc_claim(claim_model(orig.claim_type))
            &&& s.subrange(p2, q3) == enc_public(orig.public_inputs)
            &&& s.subrange(q3, q4) == enc_proof_data(orig.proof_data)
            &&& s.subrange(q4, q5) == enc_i64(orig.generated_at)
            &&& s.subrange(q5, s.len() as int) == enc_metadata(orig.metadata)
        }),
{
    reveal(enc_envelope);
    let e1 = enc_str(orig.proof_id@);
    let e2 = enc_claim(claim_model(orig.claim_type));
    let e11 = enc_i64(orig.generated_at);
    let a3 = enc_public(orig.public_inputs);
    let a4 = enc_proof_data(orig.proof_data);
    let a6 = enc_metadata(orig.metadata);
    assert(s.subrange(0, s.len() as int) =~= s);
    lemma_subrange_concat(s, 0, e1 + e2 + a3 + a4 + e11, a6);
    lemma_subrange_concat(s, 0, e1 + e2 + a3 + a4, e11);
    lemma_subrange_concat(s, 0, e1 + e2 + a3, a4);
    lemma_subrange_concat(s, 0, e1 + e2, a3);
    lemma_subrange_concat(s, 0, e1, e2);
}

/// Peels the leading fields of an encoded envelope.
#[verifier::rlimit(100)]
#[verifier::spinoff_prover]
pub proof fn lemma_envelope_front(orig: crate::zk_proof::ZkProofClaim, s: Seq<char>)
    requires
        encodable(orig),
        s == enc_envelope(orig),
    ensures
        envelope_front_parsed(orig, s),
{
    lemma_envelope_groups(orig, s);
    let p1 = enc_str(orig.proof_id@).len() as int;
    let p2 = p1 + enc_claim(claim_model(orig.claim_type)).len();
    lemma_parse_str_enc(orig.proof_id@, s, 0);
    lemma_claim_fuel_bound(claim_model(orig.claim_type));
    lemma_parse_claim_enc(claim_model(orig.claim_type), s, p1, s.len());
    lemma_pieces_public(orig.public_inputs, s, p2);
}

/// Peels the trailing fields of an encoded envelope.
#[verifier::rlimit(100)]
#[verifier::spinoff_prover]
pub proof fn lemma_envelope_tail(orig: crate::zk_proof::ZkProofClaim, s: Seq<char>)
    requires
        encodable(orig),
        s == enc_envelope(orig),
    ensures
        envelope_tail_parsed(
            orig,
            s,
            enc_str(orig.proof_id@).len() as int + enc_claim(claim_model(orig.claim_type)).len()
                + enc_public(orig.public_inputs).len(),
        ),
{
    reveal(enc_proof_data);
    crate::text::lemma_dec_fixed_len(orig.proof_data.proof_bytes@.len(), 20);
    if orig.generated_at >= 0 {
        crate::text::lemma_dec_fixed_len(orig.generated_at as nat, 19);
    } else {
        crate::text::lemma_dec_fixed_len((-(orig.generated_at as int)) as nat, 19);
    }
    lemma_envelope_groups(orig, s);
    let p1 = enc_str(orig.proof_id@).len() as int;
    let p2 = p1 + enc_claim(claim_model(orig.claim_type)).len();
    let q3 = p2 + enc_public(orig.public_inputs).len();
    let q4 = q3 + enc_proof_data(orig.proof_data).len();
    let q5 = q4 + enc_i64(orig.generated_at).len();
    lemma_pieces_proof_data(orig.proof_data, s, q3);
    lemma_parse_i64_enc(orig.generated_at, s, q4);
    lemma_pieces_metadata(orig.metadata, s, q5);
}

/// An encoded envelope reads back piece by piece as what went in.
#[verifier::rlimit(100)]
#[verifier::spinoff_prover]
pub proof fn lemma_parse_envelope_enc(orig: crate::zk_proof::ZkProofClaim, s: Seq<char>)
    requires
        encodable(orig),
        s == enc_envelope(orig),
    ensures
        spec_parse_envelope(s) matches Some(parts) && {
            &&& parts.proof_id == orig.proof_id@
            &&& parts.claim == claim_model(orig.claim_type)
            &&& parts.requirements == orig.public_inputs.requirements.entries_seq()
            &&& parts.verification_result == orig.public_inputs.verification_result
            &&& parts.certificate_hash == orig.public_inputs.certificate_hash@
            &&& parts.proof_bytes == orig.proof_data.proof_bytes@
            &&& parts.circuit_id == orig.proof_data.circuit_id@
            &&& parts.vk_hash == orig.proof_data.vk_hash@
            &&& parts.generated_at == orig.generated_at
            &&& parts.version == orig.metadata.version@
            &&& parts.platform == orig.metadata.platform@
            &&& parts.properties == orig.metadata.properties.entries_seq()
        },
{
    reveal(spec_parse_envelope);
    lemma_envelope_front(orig, s);
    lemma_envelope_tail(orig, s);
    assert(enc_public(orig.public_inputs).len() == 20 + enc_value_pairs(
        orig.public_inputs.requirements.entries_seq(),
    ).len() + 1 + enc_str(orig.public_inputs.certificate_hash@).len()) by {
        reveal(enc_public);
        crate::text::lemma_dec_fixed_len(
            orig.public_inputs.requirements.entries_seq().len(),
            20,
        );
    }
}

impl crate::zk_proof::ZkProofClaim {
    /// Renders the whole envelope as its transport text.
    #[verifier::rlimit(100)]
    pub fn to_transport(&self) -> (r: String)
        ensures
            r@ == enc_envelope(*self),
            encodable(*self),
    {
        let mut r = enc_str_exec(self.proof_id.as_str());
        r.append(encode_claim(&self.claim_type).as_str());
        r.append(dec_fixed_exec(self.public_inputs.requirements.entry_count() as u64, 20).as_str());
        r.append(encode_value_entries(&self.public_inputs.requirements, 0).as_str());
        if self.public_inputs.verification_result {
            r.append("1");
            proof {
                reveal_strlit("1");
            }
        } else {
            r.append("0");
            proof {
                reveal_strlit("0");
            }
        }
        r.append(enc_str_exec(self.public_inputs.certificate_hash.as_str()).as_str());
        r.append(dec_fixed_exec(self.proof_data.proof_bytes.len() as u64, 20).as_str());
        r.append(encode_byte_list(&self.proof_data.proof_bytes, 0).as_str());
        r.append(enc_str_exec(self.proof_data.circuit_id.as_str()).as_str());
        r.append(enc_str_exec(self.proof_data.vk_hash.as_str()).as_str());
        r.append(enc_i64_exec(self.generated_at).as_str());
        r.append(enc_str_exec(self.metadata.version.as_str()).as_str());
        r.append(enc_str_exec(self.metadata.platform.as_str()).as_str());
        r.append(dec_fixed_exec(self.metadata.properties.entry_count() as u64, 20).as_str());
        r.append(encode_str_entries(&self.metadata.properties, 0).as_str());
        proof {
            reveal(enc_envelope);
            reveal(enc_public);
            reveal(enc_proof_data);
            reveal(enc_metadata);
            assert(self.public_inputs.requirements.entries_seq().skip(0)
                =~= self.public_inputs.requirements.entries_seq());
            assert(self.metadata.properties.entries_seq().skip(0)
                =~= self.metadata.properties.entries_seq());
            assert(self.proof_data.proof_bytes@.skip(0) =~= self.proof_data.proof_bytes@);
            assert(r@ =~= enc_envelope(*self));
        }
        r
    }

    /// Reads an envelope back from its transport text. Reading what
    /// `to_transport` wrote yields an envelope with the same
    /// mathematical form, so a round trip preserves the identifier, the
    /// claim, the public inputs, and everything else the envelope holds.
    pub fn from_transport(s: &str) -> (r: Option<crate::zk_proof::ZkProofClaim>)
        ensures
            r is Some <==> spec_parse_envelope(s@) is Some,
            r matches Some(claim) ==> claim.wf(),
            forall|orig: crate::zk_proof::ZkProofClaim|
                encodable(orig) && #[trigger] enc_envelope(orig) == s@ ==> (r matches Some(claim)
                    && claim.deep_view() == orig.deep_view()),
    {
        let outcome = Self::parse_envelope(s);
        proof {
            assert forall|orig: crate::zk_proof::ZkProofClaim|
                encodable(orig) && #[trigger] enc_envelope(orig) == s@ implies (outcome
                matches Some(claim) && claim.deep_view() == orig.deep_view()) by {
                lemma_parse_envelope_enc(orig, s@);
                let parts = spec_parse_envelope(s@)->Some_0;
                let claim = outcome->Some_0;
                orig.public_inputs.requirements.lemma_to_map_entries();
                orig.metadata.properties.lemma_to_map_entries();
                assert(claim.deep_view() =~= orig.deep_view());
            }
        }
        outcome
    }

    /// Reads each field of an envelope in order.
    fn parse_envelope(s: &str) -> (r: Option<crate::zk_proof::ZkProofClaim>)
        ensures
            r is Some <==> spec_parse_envelope(s@) is Some,
            r matches Some(claim) ==> spec_parse_envelope(s@) matches Some(parts) && {
                &&& claim.wf()
                &&& claim.proof_id@ == parts.proof_id
                &&& claim_model(claim.claim_type) == parts.claim
                &&& claim.public_inputs.requirements.to_map() == crate::dict::pairs_map(
                    parts.requirements,
                )
                &&& claim.public_inputs.verification_result == parts.verification_result
                &&& claim.public_inputs.certificate_hash@ == parts.certificate_hash
                &&& claim.proof_data.proof_bytes@ == parts.proof_bytes
                &&& claim.proof_data.circuit_id@ == parts.circuit_id
                &&& claim.proof_data.vk_hash@ == parts.vk_hash
                &&& claim.generated_at == parts.generated_at
                &&& claim.metadata.version@ == parts.version
                &&& claim.metadata.platform@ == parts.platform
                &&& claim.metadata.properties.to_map() == crate::dict::pairs_map(
                    parts.properties,
                )
            },
    {
        proof {
            reveal(spec_parse_envelope);
        }
        let n = s.unicode_len();
        let proof_id = match parse_str(s, 0) {
            Some(p) => p,
            None => {
                return None;
            },
        };
        let claim_part = match parse_claim(s, proof_id.1, n as u64) {
            Some(p) => p,
            None => {
                return None;
            },
        };
        let req_count = match parse_u64(s, claim_part.1) {
            Some(p) => p,
            None => {
                return None;
            },
        };
        let requirements = match parse_value_dict(s, req_count.1, req_count.0) {
            Some(p) => p,
            None => {
                return None;
            },
        };
        let result_bit = match parse_bool(s, requirements.1) {
            Some(p) => p,
            None => {
                return None;
            },
        };
        let certificate_hash = match parse_str(s, result_bit.1) {
            Some(p) => p,
            None => {
                return None;
            },
        };
        let byte_count = match parse_u64(s, certificate_hash.1) {
            Some(p) => p,
            None => {
                return None;
            },
        };
        let proof_bytes = match parse_bytes(s, byte_count.1, byte_count.0) {
            Some(p) => p,
            None => {
                return None;
            },
        };
        let circuit_id = match parse_str(s, proof_bytes.1) {
            Some(p) => p,
            None => {
                return None;
            },
        };
        let vk_hash = match parse_str(s, circuit_id.1) {
            Some(p) => p,
            None => {
                return None;
            },
        };
        let generated_at = match parse_i64(s, vk_hash.1) {
            Some(p) => p,
            None => {
                return None;
            },
        };
        let version = match parse_str(s, generated_at.1) {
            Some(p) => p,
            None => {
                return None;
            },
        };
        let platform = match parse_str(s, version.1) {
            Some(p) => p,
            None => {
                return None;
            },
        };
        let prop_count = match parse_u64(s, platform.1) {
            Some(p) => p,
            None => {
                return None;
            },
        };
        let properties = match parse_str_dict(s, prop_count.1, prop_count.0) {
            Some(p) => p,
            None => {
                return None;
            },
        };
        Some(
            crate::zk_proof::ZkProofClaim {
                proof_id: proof_id.0,
                claim_type: claim_part.0,
                public_inputs: crate::zk_proof::PublicInputs {
                    requirements: requirements.0,
                    verification_result: result_bit.0,
                    certificate_hash: certificate_hash.0,
                },
                proof_data: crate::zk_proof::ProofData {
                    proof_bytes: proof_bytes.0,
                    circuit_id: circuit_id.0,
                    vk_hash: vk_hash.0,
                },
                generated_at: generated_at.0,
                metadata: crate::zk_proof::ProofMetadata {
                    version: version.0,
                    platform: platform.0,
                    properties: properties.0,
                },
            },
        )
    }

    /// The envelope's hash: lowercase hex of the SHA-256 digest of the
    /// transport text's bytes.
    pub fn get_proof_hash(&self) -> (r: String)
        ensures
            r@ == crate::crypto::hex_of(
                crate::crypto::sha256_of(vstd::utf8::encode_utf8(enc_envelope(*self))),
            ),
            r@.len() == 64,
    {
        let rendered = self.to_transport();
        let digest = crate::crypto::sha256(rendered.as_str().as_bytes());
        proof {
            crate::crypto::lemma_hex_of_len(digest@);
        }
        crate::crypto::hex_encode(&digest)
    }
}

} // verus!
