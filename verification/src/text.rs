//! Text: comparing it, taking it apart, writing numbers.

use vstd::prelude::*;
use vstd::string::StringSliceAdditionalSpecFns;

verus! {

/// Whether the two texts are the same.
pub fn same_text(a: &str, b: &str) -> (r: bool)
    ensures
        r == (a@ == b@),
{
    let x: &[u8] = a.as_bytes();
    let y: &[u8] = b.as_bytes();
    proof {
        vstd::utf8::encode_utf8_decode_utf8(a@);
        vstd::utf8::encode_utf8_decode_utf8(b@);
    }
    if x.len() != y.len() {
        return false;
    }
    let mut i: usize = 0;
    while i < x.len()
        invariant
            i <= x@.len(),
            x@.len() == y@.len(),
            x@ == a.spec_bytes(),
            y@ == b.spec_bytes(),
            forall|k: int| 0 <= k < i ==> x@[k] == y@[k],
        decreases x@.len() - i,
    {
        if x[i] != y[i] {
            return false;
        }
        i += 1;
    }
    assert(x@ =~= y@);
    true
}

/// The characters of the text, one by one.
pub fn chars_of(s: &str) -> (r: Vec<char>)
    ensures
        r@ == s@,
{
    let mut r: Vec<char> = Vec::new();
    for c in it: s.chars()
        invariant
            r@ == s@.take(it.index() as int),
            it.seq() == s@,
    {
        r.push(c);
    }
    r
}

/// Whether `s` begins with `prefix`.
pub fn begins_with(s: &str, prefix: &str) -> (r: bool)
    ensures
        r == prefix@.is_prefix_of(s@),
{
    let a: Vec<char> = chars_of(s);
    let b: Vec<char> = chars_of(prefix);
    if a.len() < b.len() {
        return false;
    }
    let mut i: usize = 0;
    while i < b.len()
        invariant
            i <= b@.len() <= a@.len(),
            a@ == s@,
            b@ == prefix@,
            forall|k: int| 0 <= k < i ==> a@[k] == b@[k],
        decreases b@.len() - i,
    {
        if a[i] != b[i] {
            return false;
        }
        i += 1;
    }
    assert(prefix@ =~= s@.subrange(0, prefix@.len() as int));
    true
}

/// Whether the character `c` occurs in the text.
pub fn has_char(s: &str, c: char) -> (r: bool)
    ensures
        r == s@.contains(c),
{
    let a: Vec<char> = chars_of(s);
    let mut i: usize = 0;
    while i < a.len()
        invariant
            i <= a@.len(),
            a@ == s@,
            forall|k: int| 0 <= k < i ==> a@[k] != c,
        decreases a@.len() - i,
    {
        if a[i] == c {
            return true;
        }
        i += 1;
    }
    false
}

/// The digits, in the order of their values.
pub open spec fn digits() -> Seq<char> {
    seq!['0', '1', '2', '3', '4', '5', '6', '7', '8', '9', 'a', 'b', 'c', 'd', 'e', 'f']
}

/// `n` in base ten, without leading zeros.
pub open spec fn decimal(n: nat) -> Seq<char>
    decreases n,
{
    if n < 10 {
        seq![digits()[n as int]]
    } else {
        decimal(n / 10).push(digits()[(n % 10) as int])
    }
}

/// `n` in base sixteen, in lower case and without leading zeros.
pub open spec fn hexadecimal(n: nat) -> Seq<char>
    decreases n,
{
    if n < 16 {
        seq![digits()[n as int]]
    } else {
        hexadecimal(n / 16).push(digits()[(n % 16) as int])
    }
}

/// `n` in base ten, with a minus sign in front where it is negative.
pub open spec fn signed_decimal(n: int) -> Seq<char> {
    if n < 0 {
        seq!['-'] + decimal((-n) as nat)
    } else {
        decimal(n as nat)
    }
}

/// The text of one digit.
fn digit_text(d: u64) -> (r: &'static str)
    requires
        d < 16,
    ensures
        r@ == seq![digits()[d as int]],
{
    proof {
        reveal_strlit("0123456789abcdef");
    }
    let all: &'static str = "0123456789abcdef";
    let r: &'static str = all.substring_char(d as usize, d as usize + 1);
    assert(r@ =~= seq![digits()[d as int]]);
    r
}

/// Writes `n` in base ten.
pub fn decimal_text(n: u64) -> (r: String)
    ensures
        r@ == decimal(n as nat),
    decreases n,
{
    if n < 10 {
        digit_text(n).to_string()
    } else {
        let mut r: String = decimal_text(n / 10);
        r.append(digit_text(n % 10));
        assert(r@ =~= decimal(n as nat));
        r
    }
}

/// Writes `n` in base sixteen.
pub fn hexadecimal_text(n: u64) -> (r: String)
    ensures
        r@ == hexadecimal(n as nat),
    decreases n,
{
    if n < 16 {
        digit_text(n).to_string()
    } else {
        let mut r: String = hexadecimal_text(n / 16);
        r.append(digit_text(n % 16));
        assert(r@ =~= hexadecimal(n as nat));
        r
    }
}

/// Writes `n` in base ten, with its sign where it is negative.
pub fn signed_decimal_text(n: i32) -> (r: String)
    ensures
        r@ == signed_decimal(n as int),
{
    if n < 0 {
        proof {
            reveal_strlit("-");
        }
        let mut r: String = "-".to_string();
        let m: u64 = (-(n as i64)) as u64;
        r.append(decimal_text(m).as_str());
        assert(r@ =~= signed_decimal(n as int));
        r
    } else {
        decimal_text(n as u64)
    }
}

/// The decimal numeral of a number is made of the ten digits.
pub proof fn decimal_has_only_digits(n: nat)
    ensures
        decimal(n).len() > 0,
        forall|i: int| 0 <= i < decimal(n).len() ==> '0' <= #[trigger] decimal(n)[i] <= '9',
    decreases n,
{
    if n >= 10 {
        decimal_has_only_digits(n / 10);
    }
}

/// Two numbers with the same decimal numeral are the same number.
pub proof fn decimal_is_injective(m: nat, n: nat)
    requires
        decimal(m) == decimal(n),
    ensures
        m == n,
    decreases m,
{
    decimal_has_only_digits(m / 10);
    decimal_has_only_digits(n / 10);
    assert forall|k: int| 0 <= k < 10 implies (#[trigger] digits()[k]) as int == '0' as int + k by {}
    if m < 10 && n < 10 {
        assert(decimal(m) == seq![digits()[m as int]]);
        assert(decimal(n) == seq![digits()[n as int]]);
        assert(decimal(m)[0] == digits()[m as int]);
        assert(decimal(n)[0] == digits()[n as int]);
    } else if m < 10 {
        assert(decimal(n).len() >= 2);
    } else if n < 10 {
        assert(decimal(m).len() >= 2);
    } else {
        assert(decimal(m).last() == digits()[(m % 10) as int]);
        assert(decimal(n).last() == digits()[(n % 10) as int]);
        assert(decimal(m).drop_last() =~= decimal(m / 10));
        assert(decimal(n).drop_last() =~= decimal(n / 10));
        decimal_is_injective(m / 10, n / 10);
    }
}

/// What a digit stands for.
pub open spec fn digit_value(c: char) -> int {
    if '0' <= c <= '9' {
        c as int - '0' as int
    } else {
        c as int - 'a' as int + 10
    }
}

/// What a numeral in base ten stands for.
pub open spec fn decimal_value(s: Seq<char>) -> int
    decreases s.len(),
{
    if s.len() == 0 {
        0
    } else {
        10 * decimal_value(s.drop_last()) + digit_value(s.last())
    }
}

/// What a numeral in base sixteen stands for.
pub open spec fn hexadecimal_value(s: Seq<char>) -> int
    decreases s.len(),
{
    if s.len() == 0 {
        0
    } else {
        16 * hexadecimal_value(s.drop_last()) + digit_value(s.last())
    }
}

/// Whether the text is the number in base ten: digits alone, none too many in
/// front, that stand for it.
pub open spec fn is_numeral_of(s: Seq<char>, n: int) -> bool {
    &&& s.len() > 0
    &&& s.len() > 1 ==> s[0] != '0'
    &&& forall|i: int| 0 <= i < s.len() ==> '0' <= #[trigger] s[i] <= '9'
    &&& decimal_value(s) == n
}

/// Whether the text is the number in base sixteen, in small letters.
pub open spec fn is_hexadecimal_of(s: Seq<char>, n: int) -> bool {
    &&& s.len() > 0
    &&& s.len() > 1 ==> s[0] != '0'
    &&& forall|i: int|
        0 <= i < s.len() ==> ('0' <= #[trigger] s[i] <= '9' || 'a' <= s[i] <= 'f')
    &&& hexadecimal_value(s) == n
}

/// Whether the text is the number in base ten, behind a minus sign where it is
/// negative.
pub open spec fn is_signed_numeral_of(s: Seq<char>, n: int) -> bool {
    if n < 0 {
        s.len() > 0 && s[0] == '-' && is_numeral_of(s.skip(1), -n)
    } else {
        is_numeral_of(s, n)
    }
}

/// What is written for a number in base ten stands for it.
pub proof fn decimal_stands_for_the_number(n: nat)
    ensures
        is_numeral_of(decimal(n), n as int),
        n > 0 ==> decimal(n)[0] != '0',
    decreases n,
{
    let s = decimal(n);
    assert forall|k: int| 0 <= k < 10 implies '0' <= #[trigger] digits()[k] <= '9' && digit_value(
        digits()[k],
    ) == k by {}
    if n < 10 {
        assert(s =~= seq![digits()[n as int]]);
        assert(s.drop_last() =~= Seq::empty());
        assert(decimal_value(s.drop_last()) == 0);
    } else {
        decimal_stands_for_the_number(n / 10);
        assert(s.drop_last() =~= decimal(n / 10));
        assert(s[0] == decimal(n / 10)[0]);
    }
}

/// What is written for a number in base sixteen stands for it.
pub proof fn hexadecimal_stands_for_the_number(n: nat)
    ensures
        is_hexadecimal_of(hexadecimal(n), n as int),
        n > 0 ==> hexadecimal(n)[0] != '0',
    decreases n,
{
    let s = hexadecimal(n);
    assert forall|k: int| 0 <= k < 16 implies ('0' <= #[trigger] digits()[k] <= '9' || 'a'
        <= digits()[k] <= 'f') && digit_value(digits()[k]) == k by {}
    if n < 16 {
        assert(s =~= seq![digits()[n as int]]);
        assert(s.drop_last() =~= Seq::empty());
        assert(hexadecimal_value(s.drop_last()) == 0);
    } else {
        hexadecimal_stands_for_the_number(n / 16);
        assert(s.drop_last() =~= hexadecimal(n / 16));
        assert(s[0] == hexadecimal(n / 16)[0]);
    }
}

/// What is written for a number that may be negative stands for it.
pub proof fn signed_decimal_stands_for_the_number(n: int)
    ensures
        is_signed_numeral_of(signed_decimal(n), n),
{
    if n < 0 {
        decimal_stands_for_the_number((-n) as nat);
        assert(signed_decimal(n).skip(1) =~= decimal((-n) as nat));
    } else {
        decimal_stands_for_the_number(n as nat);
    }
}

/// A text in lower case is as long as the text, and differs from it just at
/// the 26 capitals, where the small letter stands.
pub proof fn lower_changes_capitals_alone(s: Seq<char>)
    ensures
        lower(s).len() == s.len(),
        forall|k: int|
            0 <= k < s.len() ==> (#[trigger] lower(s)[k]) as int == if 65 <= s[k] as int <= 90 {
                s[k] as int + 32
            } else {
                s[k] as int
            },
{
}

/// The letter in lower case, if it is one of `A` to `Z`; else the character
/// itself.
pub open spec fn lower_char(c: char) -> char {
    if 'A' <= c <= 'Z' {
        ((c as u32) + 32) as char
    } else {
        c
    }
}

/// The text with each of `A` to `Z` in lower case.
pub open spec fn lower(s: Seq<char>) -> Seq<char> {
    s.map_values(|c: char| lower_char(c))
}

/// Whether `a`, with its letters in lower case, is `b`.
///
/// Only `A` to `Z` change. Against a `b` of ASCII characters without a `k`
/// that decides as lowering every letter of the alphabets would: no other
/// character becomes one of those on its own.
pub fn same_lower(a: &str, b: &str) -> (r: bool)
    ensures
        r == (lower(a@) == b@),
{
    let x: Vec<char> = chars_of(a);
    let y: Vec<char> = chars_of(b);
    if x.len() != y.len() {
        return false;
    }
    let mut i: usize = 0;
    while i < x.len()
        invariant
            i <= x@.len(),
            x@.len() == y@.len(),
            x@ == a@,
            y@ == b@,
            forall|k: int| 0 <= k < i ==> lower_char(x@[k]) == y@[k],
        decreases x@.len() - i,
    {
        let c: char = x[i];
        let low: char = if 'A' <= c && c <= 'Z' {
            (c as u8 + 32) as char
        } else {
            c
        };
        assert(low == lower_char(c));
        if low != y[i] {
            assert(lower(a@)[i as int] != b@[i as int]);
            return false;
        }
        i += 1;
    }
    assert(lower(a@) =~= b@);
    true
}

} // verus!
