//! Text on the wire: UTF-8 strings, string comparison and base-10 numbers.

use vstd::prelude::*;
use vstd::utf8::*;

verus! {

/// The byte `+`, which may stand before the digits of a number.
pub const PLUS: u8 = 0x2b;

/// Turns bytes into a string with `String::from_utf8`.
///
/// The result is `Some` exactly when the bytes are well-formed UTF-8, and the
/// string is then made of those very bytes.
#[verifier::external_body]
pub(crate) fn string_from_utf8(v: Vec<u8>) -> (r: Option<String>)
    ensures
        r is Some <==> valid_utf8(v@),
        r matches Some(s) ==> encode_utf8(s@) == v@,
{
    String::from_utf8(v).ok()
}

/// Two character sequences with the same UTF-8 encoding are the same sequence.
pub proof fn lemma_encode_utf8_injective(a: Seq<char>, b: Seq<char>)
    requires
        encode_utf8(a) == encode_utf8(b),
    ensures
        a == b,
{
    encode_utf8_decode_utf8(a);
    encode_utf8_decode_utf8(b);
}

/// Whether two byte slices hold the same bytes.
pub fn bytes_eq(a: &[u8], b: &[u8]) -> (r: bool)
    ensures
        r == (a@ == b@),
{
    if a.len() != b.len() {
        return false;
    }
    let mut i: usize = 0;
    while i < a.len()
        invariant
            i <= a@.len(),
            a@.len() == b@.len(),
            forall|k: int| 0 <= k < i ==> a@[k] == b@[k],
        decreases a@.len() - i,
    {
        if a[i] != b[i] {
            return false;
        }
        i += 1;
    }
    assert(a@ =~= b@);
    true
}

/// Whether two strings hold the same characters.
pub fn str_eq(a: &str, b: &str) -> (r: bool)
    ensures
        r == (a@ == b@),
{
    let same = bytes_eq(a.as_bytes(), b.as_bytes());
    proof {
        if same {
            lemma_encode_utf8_injective(a@, b@);
        }
    }
    same
}

/// Whether a byte is one of the ten decimal digits.
pub open spec fn is_digit(b: u8) -> bool {
    0x30 <= b <= 0x39
}

/// Whether every byte of a field is a decimal digit.
pub open spec fn all_digits(s: Seq<u8>) -> bool {
    forall|i: int| 0 <= i < s.len() ==> is_digit(#[trigger] s[i])
}

/// The number that a run of decimal digits stands for, most significant
/// digit first.
pub open spec fn digits_value(s: Seq<u8>) -> nat
    decreases s.len(),
{
    if s.len() == 0 {
        0
    } else {
        digits_value(s.drop_last()) * 10 + (s.last() - 0x30) as nat
    }
}

/// The digits of a number field once an optional leading `+` is taken off.
pub open spec fn unsigned_part(s: Seq<u8>) -> Seq<u8> {
    if s.len() > 0 && s[0] == PLUS {
        s.drop_first()
    } else {
        s
    }
}

/// What a base-10 number field parses to: an optional `+`, then at least one
/// digit and nothing else, standing for a number that fits in 64 bits.
pub open spec fn parse_decimal(s: Seq<u8>) -> Option<u64> {
    let digits = unsigned_part(s);
    if digits.len() > 0 && all_digits(digits) && digits_value(digits) <= u64::MAX {
        Some(digits_value(digits) as u64)
    } else {
        None
    }
}

/// The shortest run of decimal digits that stands for `n`.
pub open spec fn decimal_digits(n: nat) -> Seq<u8>
    decreases n,
{
    if n < 10 {
        seq![(0x30 + n) as u8]
    } else {
        decimal_digits(n / 10).push((0x30 + n % 10) as u8)
    }
}

/// Among digits, a prefix never stands for more than the whole run.
pub proof fn lemma_digits_value_prefix(s: Seq<u8>, k: int)
    requires
        0 <= k <= s.len(),
        all_digits(s),
    ensures
        digits_value(s.subrange(0, k)) <= digits_value(s),
    decreases s.len() - k,
{
    if k == s.len() {
        assert(s.subrange(0, k) =~= s);
    } else {
        let t = s.drop_last();
        assert(is_digit(s[s.len() - 1]));
        assert forall|i: int| 0 <= i < t.len() implies is_digit(#[trigger] t[i]) by {
            assert(t[i] == s[i]);
        }
        lemma_digits_value_prefix(t, k);
        assert(t.subrange(0, k) =~= s.subrange(0, k));
    }
}

/// The decimal digits of a number are digits, and there is at least one.
pub proof fn lemma_decimal_digits_shape(n: nat)
    ensures
        decimal_digits(n).len() > 0,
        all_digits(decimal_digits(n)),
    decreases n,
{
    if n >= 10 {
        lemma_decimal_digits_shape(n / 10);
        let head = decimal_digits(n / 10);
        let whole = decimal_digits(n);
        assert forall|i: int| 0 <= i < whole.len() implies is_digit(#[trigger] whole[i]) by {
            if i < head.len() {
                assert(whole[i] == head[i]);
            }
        }
    }
}

/// The decimal digits of a number stand for that number.
pub proof fn lemma_decimal_digits_value(n: nat)
    ensures
        digits_value(decimal_digits(n)) == n,
    decreases n,
{
    let whole = decimal_digits(n);
    if n < 10 {
        assert(whole.drop_last() =~= Seq::<u8>::empty());
        assert(digits_value(whole.drop_last()) == 0);
    } else {
        lemma_decimal_digits_value(n / 10);
        assert(whole.drop_last() =~= decimal_digits(n / 10));
    }
}

/// Writing a 64-bit number in base 10 and parsing it again gives it back.
pub proof fn lemma_parse_decimal_digits(n: u64)
    ensures
        parse_decimal(decimal_digits(n as nat)) == Some(n),
{
    lemma_decimal_digits_shape(n as nat);
    lemma_decimal_digits_value(n as nat);
    assert(is_digit(decimal_digits(n as nat)[0]));
}

/// Parses a base-10 number field.
pub fn parse_u64(field: &[u8]) -> (r: Option<u64>)
    ensures
        r == parse_decimal(field@),
{
    let n: usize = field.len();
    let start: usize = if n > 0 && field[0] == PLUS {
        1
    } else {
        0
    };
    let ghost digits = unsigned_part(field@);
    assert(digits =~= field@.subrange(start as int, n as int));
    if start == n {
        return None;
    }
    let mut acc: u64 = 0;
    let mut i: usize = start;
    assert(digits.subrange(0, 0) =~= Seq::<u8>::empty());
    while i < n
        invariant
            start <= i <= n,
            n == field@.len(),
            digits == unsigned_part(field@),
            digits == field@.subrange(start as int, n as int),
            all_digits(digits.subrange(0, i - start)),
            acc == digits_value(digits.subrange(0, i - start)),
        decreases n - i,
    {
        let b: u8 = field[i];
        let ghost before = digits.subrange(0, i - start);
        let ghost after = digits.subrange(0, i + 1 - start);
        assert(after.drop_last() =~= before);
        assert(after.last() == b);
        if b < 0x30 || b > 0x39 {
            assert(!is_digit(digits[i - start]));
            return None;
        }
        let d: u64 = (b - 0x30) as u64;
        if acc > 1844674407370955161 || acc * 10 > u64::MAX - d {
            proof {
                if all_digits(digits) {
                    lemma_digits_value_prefix(digits, i + 1 - start);
                }
            }
            return None;
        }
        acc = acc * 10 + d;
        assert forall|k: int| 0 <= k < after.len() implies is_digit(#[trigger] after[k]) by {
            if k < before.len() {
                assert(after[k] == before[k]);
            }
        }
        i += 1;
    }
    assert(digits.subrange(0, n - start) =~= digits);
    Some(acc)
}

/// Appends the decimal digits of `n` to a buffer.
pub fn push_decimal(n: u64, out: &mut Vec<u8>)
    ensures
        final(out)@ == old(out)@ + decimal_digits(n as nat),
    decreases n,
{
    if n >= 10 {
        push_decimal(n / 10, out);
    }
    out.push(0x30 + (n % 10) as u8);
}

/// Bytes below 128 are well-formed UTF-8.
pub proof fn lemma_ascii_valid_utf8(s: Seq<u8>)
    requires
        forall|k: int| 0 <= k < s.len() ==> #[trigger] s[k] < 0x80,
    ensures
        valid_utf8(s),
{
    assert(s.subrange(0, 0) =~= Seq::<u8>::empty());
    assert(partial_valid_utf8(s, 0));
    assert forall|i: int| 0 <= 0 <= i < s.len() <= s.len() implies #[trigger] is_leading_byte_width_1(
        s[i],
    ) by {}
    partial_valid_utf8_extend_ascii_block(s, 0, s.len() as int);
    assert(s.subrange(0, s.len() as int) =~= s);
}

/// The decimal digits of `n` as a string.
pub fn decimal_string(n: u64) -> (r: String)
    ensures
        encode_utf8(r@) == decimal_digits(n as nat),
{
    let mut digits: Vec<u8> = Vec::new();
    push_decimal(n, &mut digits);
    proof {
        lemma_decimal_digits_shape(n as nat);
        assert(digits@ =~= decimal_digits(n as nat));
        assert forall|k: int| 0 <= k < digits@.len() implies #[trigger] digits@[k] < 0x80 by {
            assert(is_digit(digits@[k]));
        }
        lemma_ascii_valid_utf8(digits@);
    }
    match string_from_utf8(digits) {
        Some(text) => text,
        None => {
            assert(false);
            String::new()
        },
    }
}

/// The characters of each string of a list.
pub open spec fn texts(v: Seq<String>) -> Seq<Seq<char>> {
    v.map_values(|s: String| s@)
}

/// Copies a list of strings.
pub fn clone_strings(v: &Vec<String>) -> (r: Vec<String>)
    ensures
        texts(r@) == texts(v@),
{
    let mut r: Vec<String> = Vec::new();
    let mut i: usize = 0;
    while i < v.len()
        invariant
            i <= v@.len(),
            r@.len() == i,
            forall|k: int| 0 <= k < i ==> r@[k]@ == v@[k]@,
        decreases v@.len() - i,
    {
        r.push(v[i].clone());
        i += 1;
    }
    assert(texts(r@) =~= texts(v@));
    r
}

/// Whether a list of strings holds a string with the characters of `s`.
pub fn holds_str(v: &Vec<String>, s: &str) -> (r: bool)
    ensures
        r == texts(v@).contains(s@),
{
    let mut i: usize = 0;
    while i < v.len()
        invariant
            i <= v@.len(),
            forall|k: int| 0 <= k < i ==> texts(v@)[k] != s@,
        decreases v@.len() - i,
    {
        if str_eq(v[i].as_str(), s) {
            assert(texts(v@)[i as int] == s@);
            return true;
        }
        i += 1;
    }
    false
}

} // verus!
