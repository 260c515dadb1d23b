//! Verified utilities on strings: equality, substring search,
//! ASCII-case-insensitive comparison, token extraction, and fixed-width
//! decimal rendering and parsing.

use vstd::prelude::*;

verus! {

/// Lower-case image of one character under ASCII case folding.
pub open spec fn lower_char(c: char) -> char {
    if 'A' <= c && c <= 'Z' {
        ((c as u8) + 32) as char
    } else {
        c
    }
}

/// Two character sequences are equal up to ASCII case.
pub open spec fn eq_ignore_ascii_case_seq(a: Seq<char>, b: Seq<char>) -> bool {
    a.len() == b.len() && forall|i: int| 0 <= i < a.len() ==> lower_char(a[i]) == lower_char(b[i])
}

/// `pat` occurs in `s` starting at position `i`.
pub open spec fn occurs_at(s: Seq<char>, pat: Seq<char>, i: int) -> bool {
    0 <= i && i + pat.len() <= s.len() && s.subrange(i, i + pat.len()) == pat
}

/// `pat` occurs somewhere in `s`.
pub open spec fn has_substring(s: Seq<char>, pat: Seq<char>) -> bool {
    exists|i: int| occurs_at(s, pat, i)
}

/// Exact character-wise equality of two string slices.
pub fn str_eq(a: &str, b: &str) -> (r: bool)
    ensures
        r == (a@ == b@),
{
    let n = a.unicode_len();
    if n != b.unicode_len() {
        proof {
            assert(a@ != b@) by {
                assert(a@.len() != b@.len());
            }
        }
        return false;
    }
    let mut i: usize = 0;
    while i < n
        invariant
            n == a@.len(),
            n == b@.len(),
            0 <= i <= n,
            forall|j: int| 0 <= j < i ==> a@[j] == b@[j],
        decreases n - i,
    {
        if a.get_char(i) != b.get_char(i) {
            return false;
        }
        i += 1;
    }
    proof {
        assert(a@ =~= b@);
    }
    true
}

/// Character-wise equality up to ASCII case.
pub fn str_eq_ignore_ascii_case(a: &str, b: &str) -> (r: bool)
    ensures
        r == eq_ignore_ascii_case_seq(a@, b@),
{
    let n = a.unicode_len();
    if n != b.unicode_len() {
        return false;
    }
    let mut i: usize = 0;
    while i < n
        invariant
            n == a@.len(),
            n == b@.len(),
            0 <= i <= n,
            forall|j: int| 0 <= j < i ==> lower_char(a@[j]) == lower_char(b@[j]),
        decreases n - i,
    {
        let ca = lower_char_exec(a.get_char(i));
        let cb = lower_char_exec(b.get_char(i));
        if ca != cb {
            return false;
        }
        i += 1;
    }
    true
}

/// ASCII case folding of one character.
pub fn lower_char_exec(c: char) -> (r: char)
    ensures
        r == lower_char(c),
{
    if 'A' <= c && c <= 'Z' {
        ((c as u8) + 32) as char
    } else {
        c
    }
}

/// Whether `pat` occurs in `s` at position `i`.
fn occurs_at_exec(s: &str, pat: &str, i: usize) -> (r: bool)
    requires
        i + pat@.len() <= s@.len(),
        s@.len() <= usize::MAX,
    ensures
        r == occurs_at(s@, pat@, i as int),
{
    let m = pat.unicode_len();
    let mut k: usize = 0;
    while k < m
        invariant
            m == pat@.len(),
            i + m <= s@.len(),
            s@.len() <= usize::MAX,
            0 <= k <= m,
            forall|j: int| 0 <= j < k ==> s@[i + j] == pat@[j],
        decreases m - k,
    {
        if s.get_char(i + k) != pat.get_char(k) {
            proof {
                assert(s@.subrange(i as int, i + pat@.len())[k as int] != pat@[k as int]);
            }
            return false;
        }
        k += 1;
    }
    proof {
        assert(s@.subrange(i as int, i + pat@.len()) =~= pat@);
    }
    true
}

/// Substring search, true when `pat` occurs anywhere in `s`.
pub fn str_contains(s: &str, pat: &str) -> (r: bool)
    ensures
        r == has_substring(s@, pat@),
{
    let n = s.unicode_len();
    let m = pat.unicode_len();
    if m > n {
        proof {
            assert(forall|i: int| !occurs_at(s@, pat@, i));
        }
        return false;
    }
    if m == 0 {
        proof {
            assert(s@.subrange(0, 0) =~= pat@);
            assert(occurs_at(s@, pat@, 0));
        }
        return true;
    }
    let mut i: usize = 0;
    while i <= n - m
        invariant
            n == s@.len(),
            m == pat@.len(),
            1 <= m <= n,
            0 <= i <= n,
            forall|j: int| 0 <= j < i ==> !occurs_at(s@, pat@, j),
        decreases n - i,
    {
        if occurs_at_exec(s, pat, i) {
            return true;
        }
        i += 1;
    }
    proof {
        assert(forall|j: int| occurs_at(s@, pat@, j) ==> 0 <= j && j + m <= n);
    }
    false
}

/// Position of the first occurrence of `d` in `s`, or `s.len()` when absent.
pub open spec fn first_index_of(s: Seq<char>, d: char) -> int
    decreases s.len(),
{
    if s.len() == 0 {
        0
    } else if s[0] == d {
        0
    } else {
        1 + first_index_of(s.drop_first(), d)
    }
}

pub proof fn lemma_first_index_of(s: Seq<char>, d: char)
    ensures
        0 <= first_index_of(s, d) <= s.len(),
        forall|j: int| 0 <= j < first_index_of(s, d) ==> s[j] != d,
        first_index_of(s, d) < s.len() ==> s[first_index_of(s, d)] == d,
    decreases s.len(),
{
    if s.len() > 0 && s[0] != d {
        lemma_first_index_of(s.drop_first(), d);
        assert forall|j: int| 0 <= j < first_index_of(s, d) implies s[j] != d by {
            if j > 0 {
                assert(s.drop_first()[j - 1] == s[j]);
            }
        }
    }
}

/// Index of the first occurrence of `d` in `s`, or the length of `s` when
/// `d` is absent.
pub fn first_index_exec(s: &str, d: char) -> (i: usize)
    ensures
        i == first_index_of(s@, d),
{
    let n = s.unicode_len();
    let mut i: usize = 0;
    while i < n
        invariant
            n == s@.len(),
            0 <= i <= n,
            forall|j: int| 0 <= j < i ==> s@[j] != d,
        decreases n - i,
    {
        if s.get_char(i) == d {
            proof {
                lemma_first_index_of(s@, d);
                let f = first_index_of(s@, d);
                if f < i {
                    assert(s@[f] != d);
                    assert(s@[f] == d);
                }
                if f > i {
                    assert(s@[i as int] != d);
                }
            }
            return i;
        }
        i += 1;
    }
    proof {
        lemma_first_index_of(s@, d);
        let f = first_index_of(s@, d);
        if f < n {
            assert(s@[f] != d);
            assert(s@[f] == d);
        }
    }
    n
}

/// The prefix of `s` before the first occurrence of `d` (all of `s` when
/// `d` is absent).
pub fn leading_token(s: &str, d: char) -> (r: String)
    ensures
        r@ == s@.subrange(0, first_index_of(s@, d)),
{
    let i = first_index_exec(s, d);
    proof {
        lemma_first_index_of(s@, d);
    }
    let t = s.substring_char(0, i);
    String::from_str(t)
}

/// Whether some entry of `list` has exactly the characters of `s`.
pub open spec fn contains_string(list: Seq<String>, s: Seq<char>) -> bool {
    exists|i: int| 0 <= i < list.len() && list[i]@ == s
}

/// Membership test on a list of strings, by characters.
pub fn contains_string_exec(list: &Vec<String>, s: &str) -> (r: bool)
    ensures
        r == contains_string(list@, s@),
{
    let n = list.len();
    let mut i: usize = 0;
    while i < n
        invariant
            n == list@.len(),
            0 <= i <= n,
            forall|j: int| 0 <= j < i ==> list@[j]@ != s@,
        decreases n - i,
    {
        if str_eq(list[i].as_str(), s) {
            return true;
        }
        i += 1;
    }
    false
}

/// The character for a decimal digit.
pub open spec fn digit_char(d: int) -> char {
    if d == 0 {
        '0'
    } else if d == 1 {
        '1'
    } else if d == 2 {
        '2'
    } else if d == 3 {
        '3'
    } else if d == 4 {
        '4'
    } else if d == 5 {
        '5'
    } else if d == 6 {
        '6'
    } else if d == 7 {
        '7'
    } else if d == 8 {
        '8'
    } else {
        '9'
    }
}

/// The digit a character stands for, or none.
pub open spec fn digit_value(c: char) -> Option<int> {
    if c == '0' {
        Some(0int)
    } else if c == '1' {
        Some(1int)
    } else if c == '2' {
        Some(2int)
    } else if c == '3' {
        Some(3int)
    } else if c == '4' {
        Some(4int)
    } else if c == '5' {
        Some(5int)
    } else if c == '6' {
        Some(6int)
    } else if c == '7' {
        Some(7int)
    } else if c == '8' {
        Some(8int)
    } else if c == '9' {
        Some(9int)
    } else {
        None
    }
}

/// `n` written as exactly `width` decimal digits, most significant first,
/// padded with zeros on the left.
pub open spec fn dec_fixed(n: nat, width: nat) -> Seq<char>
    decreases width,
{
    if width == 0 {
        Seq::empty()
    } else {
        dec_fixed(n / 10, (width - 1) as nat) + seq![digit_char(n as int % 10)]
    }
}

/// `n` written in ordinary decimal, without leading zeros (a single zero
/// for zero itself).
pub open spec fn dec_str(n: nat) -> Seq<char>
    decreases n,
{
    if n < 10 {
        seq![digit_char(n as int)]
    } else {
        dec_str(n / 10) + seq![digit_char(n as int % 10)]
    }
}

/// A single decimal digit as a string slice.
fn digit_str(d: u64) -> (r: &'static str)
    requires
        d < 10,
    ensures
        r@ =~= seq![digit_char(d as int)],
{
    proof {
        reveal_strlit("0");
        reveal_strlit("1");
        reveal_strlit("2");
        reveal_strlit("3");
        reveal_strlit("4");
        reveal_strlit("5");
        reveal_strlit("6");
        reveal_strlit("7");
        reveal_strlit("8");
        reveal_strlit("9");
    }
    if d == 0 {
        "0"
    } else if d == 1 {
        "1"
    } else if d == 2 {
        "2"
    } else if d == 3 {
        "3"
    } else if d == 4 {
        "4"
    } else if d == 5 {
        "5"
    } else if d == 6 {
        "6"
    } else if d == 7 {
        "7"
    } else if d == 8 {
        "8"
    } else {
        "9"
    }
}

/// Renders `n` as exactly `width` zero-padded decimal digits.
pub fn dec_fixed_exec(n: u64, width: u8) -> (r: String)
    ensures
        r@ == dec_fixed(n as nat, width as nat),
    decreases width,
{
    if width == 0 {
        let r = String::new();
        proof {
            assert(r@ =~= dec_fixed(n as nat, 0));
        }
        r
    } else {
        let high = dec_fixed_exec(n / 10, width - 1);
        let r = high.concat(digit_str(n % 10));
        proof {
            assert(r@ =~= dec_fixed(n as nat, width as nat));
        }
        r
    }
}

/// Renders `n` in ordinary decimal.
pub fn dec_str_exec(n: u64) -> (r: String)
    ensures
        r@ == dec_str(n as nat),
    decreases n,
{
    if n < 10 {
        String::from_str(digit_str(n))
    } else {
        let high = dec_str_exec(n / 10);
        let r = high.concat(digit_str(n % 10));
        proof {
            assert(r@ =~= dec_str(n as nat));
        }
        r
    }
}

/// A signed number in ordinary decimal, with a leading minus sign when
/// negative.
pub open spec fn int_str(n: int) -> Seq<char> {
    if n >= 0 {
        dec_str(n as nat)
    } else {
        "-"@ + dec_str((-n) as nat)
    }
}

/// Renders a signed number in ordinary decimal.
pub fn int_str_exec(n: i64) -> (r: String)
    ensures
        r@ == int_str(n as int),
{
    if n >= 0 {
        dec_str_exec(n as u64)
    } else {
        let magnitude: u64 = ((-(n as i128)) as u64);
        let r = String::from_str("-").concat(dec_str_exec(magnitude).as_str());
        proof {
            assert(r@ =~= int_str(n as int));
        }
        r
    }
}

/// The value of a digit sequence read as a decimal numeral, most
/// significant digit first; meaningful only when every character is a digit.
pub open spec fn dec_value(s: Seq<char>) -> int
    decreases s.len(),
{
    if s.len() == 0 {
        0
    } else {
        dec_value(s.drop_last()) * 10 + digit_value(s.last()).unwrap_or(0)
    }
}

/// A fixed-width numeral is exactly as wide as asked.
pub proof fn lemma_dec_fixed_len(n: nat, width: nat)
    ensures
        dec_fixed(n, width).len() == width,
    decreases width,
{
    if width > 0 {
        lemma_dec_fixed_len(n / 10, (width - 1) as nat);
    }
}

/// Reading back a fixed-width numeral yields the number, as long as the
/// number fits in the width.
pub proof fn lemma_dec_fixed_value(n: nat, width: nat)
    requires
        n < pow10(width),
    ensures
        dec_fixed(n, width).len() == width,
        forall|j: int|
            0 <= j < width ==> digit_value(#[trigger] dec_fixed(n, width)[j]) is Some,
        dec_value(dec_fixed(n, width)) == n,
    decreases width,
{
    if width == 0 {
    } else {
        lemma_dec_fixed_value(n / 10, (width - 1) as nat);
        let s = dec_fixed(n, width);
        let h = dec_fixed(n / 10, (width - 1) as nat);
        assert(s.drop_last() =~= h);
        assert(digit_value(digit_char(n as int % 10)) == Some(n as int % 10));
        assert(dec_value(s) == dec_value(h) * 10 + n % 10);
        assert(n / 10 * 10 + n % 10 == n) by {
            vstd::arithmetic::div_mod::lemma_fundamental_div_mod(n as int, 10);
        }
    }
}

/// Ten to the `width`.
pub open spec fn pow10(width: nat) -> nat
    decreases width,
{
    if width == 0 {
        1
    } else {
        10 * pow10((width - 1) as nat)
    }
}

/// The twentieth power of ten, written out.
pub proof fn lemma_pow10_twenty()
    ensures
        pow10(20) == 100000000000000000000,
{
    assert(pow10(0) == 1);
    assert(pow10(1) == 10);
    assert(pow10(2) == 100);
    assert(pow10(3) == 1000);
    assert(pow10(4) == 10000);
    assert(pow10(5) == 100000);
    assert(pow10(6) == 1000000);
    assert(pow10(7) == 10000000);
    assert(pow10(8) == 100000000);
    assert(pow10(9) == 1000000000);
    assert(pow10(10) == 10000000000);
    assert(pow10(11) == 100000000000);
    assert(pow10(12) == 1000000000000);
    assert(pow10(13) == 10000000000000);
    assert(pow10(14) == 100000000000000);
    assert(pow10(15) == 1000000000000000);
    assert(pow10(16) == 10000000000000000);
    assert(pow10(17) == 100000000000000000);
    assert(pow10(18) == 1000000000000000000);
    assert(pow10(19) == 10000000000000000000);
    assert(pow10(20) == 100000000000000000000);
}

/// Every `u64` fits in twenty decimal digits.
pub proof fn lemma_u64_fits_twenty_digits(n: u64)
    ensures
        (n as nat) < pow10(20),
{
    lemma_pow10_twenty();
}

/// Reads exactly `width` decimal digits of `s` starting at `pos`.
/// Returns the value when all characters are digits and the value fits in
/// a `u64`, and none otherwise.
pub fn parse_dec_fixed(s: &str, pos: usize, width: u8) -> (r: Option<u64>)
    requires
        pos + width <= s@.len(),
        s@.len() <= usize::MAX,
        width <= 20,
    ensures
        match r {
            Some(v) => {
                &&& forall|j: int|
                    pos <= j < pos + width ==> digit_value(#[trigger] s@[j]) is Some
                &&& v == dec_value(s@.subrange(pos as int, pos + width))
            },
            None => {
                ||| exists|j: int|
                    pos <= j < pos + width && digit_value(#[trigger] s@[j]) is None
                ||| dec_value(s@.subrange(pos as int, pos + width)) > u64::MAX
            },
        },
{
    let mut acc: u128 = 0;
    let mut k: u8 = 0;
    while k < width
        invariant
            pos + width <= s@.len(),
            s@.len() <= usize::MAX,
            width <= 20,
            0 <= k <= width,
            forall|j: int| pos <= j < pos + k ==> digit_value(#[trigger] s@[j]) is Some,
            acc == dec_value(s@.subrange(pos as int, pos + k as int)),
            acc < pow10(k as nat),
        decreases width - k,
    {
        let c = s.get_char(pos + k as usize);
        let d: u128 = match c {
            '0' => 0,
            '1' => 1,
            '2' => 2,
            '3' => 3,
            '4' => 4,
            '5' => 5,
            '6' => 6,
            '7' => 7,
            '8' => 8,
            '9' => 9,
            _ => {
                return None;
            },
        };
        proof {
            assert(digit_value(c) == Some(d as int));
            assert(pow10((k + 1) as nat) == 10 * pow10(k as nat));
            lemma_pow10_twenty();
            lemma_pow10_monotone(k as nat, 20);
            assert(acc * 10 + d < pow10((k + 1) as nat)) by {
                assert(acc <= pow10(k as nat) - 1);
                assert(acc * 10 <= (pow10(k as nat) - 1) * 10) by (nonlinear_arith)
                    requires
                        acc <= pow10(k as nat) - 1,
                ;
            }
            let prev = s@.subrange(pos as int, pos + k as int);
            let next = s@.subrange(pos as int, pos + (k + 1) as int);
            assert(next.drop_last() =~= prev);
            assert(next.last() == c);
        }
        acc = acc * 10 + d;
        k = k + 1;
    }
    if acc > u64::MAX as u128 {
        return None;
    }
    Some(acc as u64)
}

/// `pow10` grows with the width.
pub proof fn lemma_pow10_monotone(a: nat, b: nat)
    requires
        a <= b,
    ensures
        pow10(a) <= pow10(b),
    decreases b,
{
    if a < b {
        lemma_pow10_monotone(a, (b - 1) as nat);
        assert(pow10(b) == 10 * pow10((b - 1) as nat));
        assert(pow10((b - 1) as nat) >= 1) by {
            lemma_pow10_positive((b - 1) as nat);
        }
    }
}

/// `pow10` is positive.
pub proof fn lemma_pow10_positive(a: nat)
    ensures
        pow10(a) >= 1,
    decreases a,
{
    if a > 0 {
        lemma_pow10_positive((a - 1) as nat);
    }
}


/// The leftmost-match, non-overlapping replacement of `pat` by `rep`.
pub open spec fn replace_seq(s: Seq<char>, pat: Seq<char>, rep: Seq<char>) -> Seq<char>
    decreases s.len(),
{
    if pat.len() == 0 || s.len() == 0 {
        s
    } else if occurs_at(s, pat, 0) {
        rep + replace_seq(s.skip(pat.len() as int), pat, rep)
    } else {
        seq![s.first()] + replace_seq(s.drop_first(), pat, rep)
    }
}

/// Replaces every occurrence of `pat`, leftmost first, without
/// overlapping.
pub fn replace_str(s: &str, pat: &str, rep: &str) -> (r: String)
    requires
        pat@.len() > 0,
    ensures
        r@ == replace_seq(s@, pat@, rep@),
{
    let n = s.unicode_len();
    let m = pat.unicode_len();
    let mut out = String::new();
    let mut i: usize = 0;
    proof {
        assert(s@.skip(0) =~= s@);
        assert(out@ + replace_seq(s@, pat@, rep@) =~= replace_seq(s@, pat@, rep@));
    }
    while i < n
        invariant
            n == s@.len(),
            m == pat@.len(),
            m > 0,
            0 <= i <= n,
            replace_seq(s@, pat@, rep@) == out@ + replace_seq(s@.skip(i as int), pat@, rep@),
        decreases n - i,
    {
        let ghost tail = s@.skip(i as int);
        if m <= n - i && occurs_at_exec(s, pat, i) {
            proof {
                assert(tail.subrange(0, m as int) =~= s@.subrange(i as int, i + m));
                assert(occurs_at(tail, pat@, 0));
                assert(tail.skip(m as int) =~= s@.skip(i + m));
            }
            out.append(rep);
            i += m;
        } else {
            proof {
                if m <= n - i && occurs_at(tail, pat@, 0) {
                    assert(tail.subrange(0, m as int) =~= s@.subrange(i as int, i + m));
                }
                if m > n - i {
                    assert(!occurs_at(tail, pat@, 0));
                }
                assert(tail.first() == s@[i as int]);
                assert(tail.drop_first() =~= s@.skip(i + 1));
            }
            let piece = s.substring_char(i, i + 1);
            proof {
                assert(piece@ =~= seq![s@[i as int]]);
            }
            out.append(piece);
            i += 1;
        }
    }
    proof {
        assert(s@.skip(n as int) =~= Seq::<char>::empty());
        assert(out@ =~= out@ + replace_seq(s@.skip(n as int), pat@, rep@));
    }
    out
}

/// An ASCII whitespace character.
pub open spec fn is_ascii_space(c: char) -> bool {
    c == ' ' || c == '\t' || c == '\n' || c == '\r'
}

/// How many whitespace characters lead the text.
pub open spec fn leading_space(s: Seq<char>) -> int
    decreases s.len(),
{
    if s.len() == 0 || !is_ascii_space(s[0]) {
        0
    } else {
        1 + leading_space(s.drop_first())
    }
}

/// How many whitespace characters trail the text.
pub open spec fn trailing_space(s: Seq<char>) -> int
    decreases s.len(),
{
    if s.len() == 0 || !is_ascii_space(s.last()) {
        0
    } else {
        1 + trailing_space(s.drop_last())
    }
}

/// The text without leading and trailing ASCII whitespace.
pub open spec fn trim_seq(s: Seq<char>) -> Seq<char> {
    if leading_space(s) == s.len() {
        Seq::empty()
    } else {
        s.subrange(leading_space(s), s.len() - trailing_space(s))
    }
}

/// The leading-space count is the first non-space position.
pub proof fn lemma_leading_space(s: Seq<char>)
    ensures
        0 <= leading_space(s) <= s.len(),
        forall|j: int| 0 <= j < leading_space(s) ==> is_ascii_space(s[j]),
        leading_space(s) < s.len() ==> !is_ascii_space(s[leading_space(s)]),
    decreases s.len(),
{
    if s.len() > 0 && is_ascii_space(s[0]) {
        lemma_leading_space(s.drop_first());
        assert forall|j: int| 0 <= j < leading_space(s) implies is_ascii_space(s[j]) by {
            if j > 0 {
                assert(s.drop_first()[j - 1] == s[j]);
            }
        }
    }
}

/// The trailing-space count is measured from the last non-space position.
pub proof fn lemma_trailing_space(s: Seq<char>)
    ensures
        0 <= trailing_space(s) <= s.len(),
        forall|j: int| s.len() - trailing_space(s) <= j < s.len() ==> is_ascii_space(s[j]),
        trailing_space(s) < s.len() ==> !is_ascii_space(s[s.len() - trailing_space(s) - 1]),
    decreases s.len(),
{
    if s.len() > 0 && is_ascii_space(s.last()) {
        lemma_trailing_space(s.drop_last());
        assert forall|j: int|
            s.len() - trailing_space(s) <= j < s.len() implies is_ascii_space(s[j]) by {
            if j < s.len() - 1 {
                assert(s.drop_last()[j] == s[j]);
            }
        }
    }
}

/// Strips leading and trailing ASCII whitespace.
pub fn trim_str(s: &str) -> (r: String)
    ensures
        r@ == trim_seq(s@),
{
    let n = s.unicode_len();
    proof {
        lemma_leading_space(s@);
        lemma_trailing_space(s@);
    }
    let mut a: usize = 0;
    while a < n && is_ascii_space_exec(s.get_char(a))
        invariant
            n == s@.len(),
            0 <= a <= n,
            forall|j: int| 0 <= j < a ==> is_ascii_space(s@[j]),
        decreases n - a,
    {
        a += 1;
    }
    proof {
        assert(a == leading_space(s@)) by {
            let f = leading_space(s@);
            if f < a {
                assert(is_ascii_space(s@[f]));
            }
            if f > a {
                assert(is_ascii_space(s@[a as int]));
            }
        }
    }
    if a == n {
        let r = String::new();
        proof {
            assert(r@ =~= trim_seq(s@));
        }
        return r;
    }
    let mut b: usize = n;
    while b > a && is_ascii_space_exec(s.get_char(b - 1))
        invariant
            n == s@.len(),
            a < n,
            a == leading_space(s@),
            a <= b <= n,
            forall|j: int| b <= j < n ==> is_ascii_space(s@[j]),
        decreases b,
    {
        b -= 1;
    }
    proof {
        assert(!is_ascii_space(s@[a as int]));
        assert(b > a) by {
            if b == a {
                assert(is_ascii_space(s@[a as int]));
            }
        }
        assert(b == n - trailing_space(s@)) by {
            let t = trailing_space(s@);
            if n - t < b {
                assert(!is_ascii_space(s@[n - t - 1])) by {
                    assert(t < s@.len());
                }
                assert(is_ascii_space(s@[n - t - 1]));
            }
            if n - t > b {
                assert(is_ascii_space(s@[b - 1]));
            }
        }
    }
    let t = s.substring_char(a, b);
    String::from_str(t)
}

/// Whether a character is ASCII whitespace.
pub fn is_ascii_space_exec(c: char) -> (r: bool)
    ensures
        r == is_ascii_space(c),
{
    c == ' ' || c == '\t' || c == '\n' || c == '\r'
}


} // verus!
