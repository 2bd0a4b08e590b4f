//! Numbers as text: hexadecimal and decimal digits.

use vstd::prelude::*;

use crate::text::chars_of;

verus! {

/// The digit that stands for a value below sixteen.
pub open spec fn digit_char(value: int) -> char {
    if value < 10 {
        (0x30 + value) as char
    } else {
        (0x61 + value - 10) as char
    }
}

/// The last `width` hexadecimal digits of `n`.
pub open spec fn hex_digits(n: nat, width: nat) -> Seq<char>
    decreases width,
{
    if width == 0 {
        Seq::empty()
    } else {
        hex_digits(n / 16, (width - 1) as nat).push(digit_char((n % 16) as int))
    }
}

/// Each byte as two hexadecimal digits.
pub open spec fn hex_bytes(bytes: Seq<u8>) -> Seq<char>
    decreases bytes.len(),
{
    if bytes.len() == 0 {
        Seq::empty()
    } else {
        hex_bytes(bytes.drop_last()) + hex_digits(bytes.last() as nat, 2)
    }
}

/// The decimal digits of `n`, without leading zeros.
pub open spec fn decimal_digits(n: nat) -> Seq<char>
    decreases n,
{
    if n < 10 {
        seq![digit_char(n as int)]
    } else {
        decimal_digits(n / 10).push(digit_char((n % 10) as int))
    }
}

/// A decimal digit.
pub open spec fn is_decimal_digit(c: char) -> bool {
    '0' <= c <= '9'
}

/// The number that decimal digits stand for.
pub open spec fn digits_value(digits: Seq<char>) -> nat
    decreases digits.len(),
{
    if digits.len() == 0 {
        0
    } else {
        digits_value(digits.drop_last()) * 10 + ((digits.last() as int - '0' as int) as nat)
    }
}

/// The text without an optional plus sign in front.
pub open spec fn without_plus(s: Seq<char>) -> Seq<char> {
    if s.len() > 0 && s[0] == '+' {
        s.skip(1)
    } else {
        s
    }
}

/// Every character is a decimal digit, and there is one.
pub open spec fn all_digits(s: Seq<char>) -> bool {
    s.len() > 0 && forall|i: int| 0 <= i < s.len() ==> is_decimal_digit(#[trigger] s[i])
}

/// The number that a text stands for: decimal digits, at least one, after an
/// optional plus sign.
pub open spec fn unsigned_value(s: Seq<char>) -> Option<nat> {
    if all_digits(without_plus(s)) {
        Some(digits_value(without_plus(s)))
    } else {
        None
    }
}

/// Returns the digit that stands for a value below sixteen.
fn digit(value: u8) -> (c: char)
    requires
        value < 16,
    ensures
        c == digit_char(value as int),
{
    if value < 10 {
        (0x30u8 + value) as char
    } else {
        (0x61u8 + (value - 10)) as char
    }
}

fn push_hex(text: &mut String, n: u32, width: u32)
    ensures
        final(text)@ == old(text)@ + hex_digits(n as nat, width as nat),
    decreases width,
{
    if width > 0 {
        push_hex(text, n / 16, width - 1);
        text.push(digit((n % 16) as u8));
    }
}

/// The number as exactly eight hexadecimal digits.
pub fn hex_text(n: u32) -> (text: String)
    ensures
        text@ == hex_digits(n as nat, 8),
{
    let mut text: String = String::new();
    push_hex(&mut text, n, 8);
    text
}

/// The bytes as pairs of hexadecimal digits.
pub fn hex_bytes_text(bytes: &[u8]) -> (text: String)
    ensures
        text@ == hex_bytes(bytes@),
{
    let mut text: String = String::new();
    let mut i: usize = 0;
    while i < bytes.len()
        invariant
            i <= bytes@.len(),
            text@ == hex_bytes(bytes@.take(i as int)),
        decreases bytes@.len() - i,
    {
        push_hex(&mut text, bytes[i] as u32, 2);
        i = i + 1;
        assert(bytes@.take(i as int).drop_last() == bytes@.take(i - 1));
    }
    assert(bytes@.take(i as int) == bytes@);
    text
}

fn push_decimal(text: &mut String, n: u64)
    ensures
        final(text)@ == old(text)@ + decimal_digits(n as nat),
    decreases n,
{
    if n >= 10 {
        push_decimal(text, n / 10);
    }
    text.push(digit((n % 10) as u8));
}

/// The number in decimal digits.
pub fn decimal_text(n: u64) -> (text: String)
    ensures
        text@ == decimal_digits(n as nat),
{
    let mut text: String = String::new();
    push_decimal(&mut text, n);
    text
}

proof fn lemma_value_grows(digits: Seq<char>, n: int)
    requires
        0 <= n <= digits.len(),
    ensures
        digits_value(digits.take(n)) <= digits_value(digits),
    decreases digits.len() - n,
{
    if n < digits.len() {
        lemma_value_grows(digits.drop_last(), n);
        assert(digits.drop_last().take(n) == digits.take(n));
    } else {
        assert(digits.take(n) == digits);
    }
}

/// Reads an unsigned number of at most `max`.
pub fn parse_unsigned(s: &str, max: u128) -> (number: Option<u128>)
    ensures
        number == match unsigned_value(s@) {
            Some(value) => if value <= max {
                Some(value as u128)
            } else {
                None
            },
            None => None,
        },
{
    let chars: Vec<char> = chars_of(s);
    let start: usize = if chars.len() > 0 && chars[0] == '+' {
        1
    } else {
        0
    };
    let ghost digits = without_plus(s@);
    assert(digits == s@.skip(start as int));
    if start == chars.len() {
        return None;
    }
    let mut value: u128 = 0;
    let mut i: usize = start;
    while i < chars.len()
        invariant
            chars@ == s@,
            start <= i <= chars@.len(),
            digits == without_plus(s@),
            digits == s@.skip(start as int),
            digits.len() > 0,
            forall|k: int| 0 <= k < i - start ==> is_decimal_digit(#[trigger] digits[k]),
            value == digits_value(digits.take(i - start)),
            value <= max,
        decreases chars@.len() - i,
    {
        let c: char = chars[i];
        assert(digits[i - start] == c);
        if !('0' <= c && c <= '9') {
            return None;
        }
        let d: u128 = (c as u32 - '0' as u32) as u128;
        proof {
            assert(digits.take(i - start + 1).drop_last() == digits.take(i - start));
            assert(digits_value(digits.take(i - start + 1)) == value * 10 + d);
            lemma_value_grows(digits, i - start + 1);
        }
        if d > max || value > (max - d) / 10 {
            return None;
        }
        value = value * 10 + d;
        i = i + 1;
    }
    assert(digits.take(i - start) == digits);
    Some(value)
}

// ---------------------------------------------------------------------------
// Laws
// ---------------------------------------------------------------------------

/// Eight hexadecimal digits tell the numbers below two to the thirty-second
/// apart.
pub proof fn law_hex_digits_are_injective(a: u32, b: u32)
    ensures
        hex_digits(a as nat, 8) == hex_digits(b as nat, 8) <==> a == b,
        hex_digits(a as nat, 8).len() == 8,
{
    reveal_with_fuel(hex_digits, 9);
    if hex_digits(a as nat, 8) == hex_digits(b as nat, 8) {
        lemma_hex_digits_injective(a as nat, b as nat, 8);
    }
}

/// The weight of the digit with so many hexadecimal digits behind it.
pub open spec fn power_of_16(width: nat) -> nat
    decreases width,
{
    if width == 0 {
        1
    } else {
        16 * power_of_16((width - 1) as nat)
    }
}

proof fn lemma_hex_digits_injective(a: nat, b: nat, width: nat)
    requires
        hex_digits(a, width) == hex_digits(b, width),
    ensures
        width == 8 && a < 0x1_0000_0000 && b < 0x1_0000_0000 ==> a == b,
        a % power_of_16(width) == b % power_of_16(width),
    decreases width,
{
    if width != 0 {
        let p = power_of_16((width - 1) as nat);
        let x = hex_digits(a / 16, (width - 1) as nat);
        let y = hex_digits(b / 16, (width - 1) as nat);
        let s = hex_digits(a, width);
        let t = hex_digits(b, width);
        assert(s == x.push(digit_char((a % 16) as int)));
        assert(t == y.push(digit_char((b % 16) as int)));
        assert(s.drop_last() == x);
        assert(t.drop_last() == y);
        assert(s.last() == digit_char((a % 16) as int));
        assert(t.last() == digit_char((b % 16) as int));
        assert(a % 16 == b % 16);
        lemma_hex_digits_injective(a / 16, b / 16, (width - 1) as nat);
        lemma_power_positive((width - 1) as nat);
        vstd::arithmetic::div_mod::lemma_mod_breakdown(a as int, 16, p as int);
        vstd::arithmetic::div_mod::lemma_mod_breakdown(b as int, 16, p as int);
        if width == 8 && a < 0x1_0000_0000 && b < 0x1_0000_0000 {
            reveal_with_fuel(power_of_16, 9);
            assert(power_of_16(8) == 0x1_0000_0000);
            vstd::arithmetic::div_mod::lemma_small_mod(a, power_of_16(8));
            vstd::arithmetic::div_mod::lemma_small_mod(b, power_of_16(8));
        }
    }
}

proof fn lemma_power_positive(width: nat)
    ensures
        power_of_16(width) > 0,
    decreases width,
{
    if width != 0 {
        lemma_power_positive((width - 1) as nat);
    }
}

proof fn lemma_digit_value(n: int)
    requires
        0 <= n < 10,
    ensures
        is_decimal_digit(digit_char(n)),
        digit_char(n) as int - '0' as int == n,
{
}

proof fn lemma_decimal_round_trip(n: nat)
    ensures
        decimal_digits(n).len() > 0,
        forall|i: int|
            0 <= i < decimal_digits(n).len() ==> is_decimal_digit(#[trigger] decimal_digits(n)[i]),
        digits_value(decimal_digits(n)) == n,
    decreases n,
{
    lemma_digit_value((n % 10) as int);
    let s = decimal_digits(n);
    if n < 10 {
        assert(s.drop_last() == Seq::<char>::empty());
        assert(digits_value(s.drop_last()) == 0);
    } else {
        lemma_decimal_round_trip(n / 10);
        assert(s.drop_last() == decimal_digits(n / 10));
    }
}

/// Reading the decimal digits of a number gives the number back.
pub proof fn law_decimal_round_trip(n: nat)
    ensures
        unsigned_value(decimal_digits(n)) == Some(n),
{
    lemma_decimal_round_trip(n);
    assert(is_decimal_digit(decimal_digits(n)[0]));
}

/// The value of a hexadecimal digit with small letters.
pub open spec fn small_hex_value(c: char) -> int {
    if c <= '9' {
        c as int - '0' as int
    } else {
        c as int - 'a' as int + 10
    }
}

/// A hexadecimal digit with small letters.
pub open spec fn is_small_hex(c: char) -> bool {
    '0' <= c <= '9' || 'a' <= c <= 'f'
}

/// Each hexadecimal digit stands for its part of the number: the last for the
/// remainder by sixteen, each one before for that of a number sixteen times
/// smaller.
pub proof fn law_hex_digits_stand_for_the_number(n: nat, width: nat, i: nat)
    ensures
        hex_digits(n, width).len() == width,
        i < width ==> is_small_hex(hex_digits(n, width)[width - 1 - i]),
        i < width ==> small_hex_value(hex_digits(n, width)[width - 1 - i]) == (n / power_of_16(i))
            % 16,
    decreases width,
{
    if width > 0 {
        let front = hex_digits(n / 16, (width - 1) as nat);
        law_hex_digits_stand_for_the_number(n / 16, (width - 1) as nat, 0);
        if i == 0 {
            assert(n / 1 == n) by (nonlinear_arith);
        } else if i < width {
            let j = (i - 1) as nat;
            law_hex_digits_stand_for_the_number(n / 16, (width - 1) as nat, j);
            lemma_power_positive(j);
            vstd::arithmetic::div_mod::lemma_div_denominator(
                n as int,
                16,
                power_of_16(j) as int,
            );
            assert(hex_digits(n, width)[width - 1 - i] == front[width - 2 - j]);
        }
    }
}

/// Each byte is shown as its own two digits.
pub proof fn law_bytes_are_shown_one_by_one(bytes: Seq<u8>, i: int)
    ensures
        hex_bytes(bytes).len() == 2 * bytes.len(),
        0 <= i < bytes.len() ==> {
            let high = hex_bytes(bytes)[2 * i];
            let low = hex_bytes(bytes)[2 * i + 1];
            &&& is_small_hex(high) && is_small_hex(low)
            &&& small_hex_value(high) * 16 + small_hex_value(low) == bytes[i]
        },
    decreases bytes.len(),
{
    if bytes.len() > 0 {
        let front = bytes.drop_last();
        let last = bytes.last();
        law_bytes_are_shown_one_by_one(front, i);
        law_hex_digits_stand_for_the_number(last as nat, 2, 0);
        law_hex_digits_stand_for_the_number(last as nat, 2, 1);
        assert(power_of_16(0) == 1 && power_of_16(1) == 16) by {
            reveal_with_fuel(power_of_16, 2);
        }
        assert(last as nat / 1 == last as nat);
        if 0 <= i < front.len() {
            assert(hex_bytes(bytes)[2 * i] == hex_bytes(front)[2 * i]);
            assert(hex_bytes(bytes)[2 * i + 1] == hex_bytes(front)[2 * i + 1]);
        } else if i == front.len() {
            assert(hex_bytes(bytes)[2 * i] == hex_digits(last as nat, 2)[0]);
            assert(hex_bytes(bytes)[2 * i + 1] == hex_digits(last as nat, 2)[1]);
        }
    }
}

/// A number is written with decimal digits alone and, but for zero, does not
/// start with one that could be left out.
pub proof fn law_decimal_digits_are_canonical(n: nat, i: int)
    ensures
        0 <= i < decimal_digits(n).len() ==> '0' <= decimal_digits(n)[i] <= '9',
        decimal_digits(n).len() > 0,
        n > 0 ==> decimal_digits(n)[0] != '0',
    decreases n,
{
    lemma_decimal_round_trip(n);
    if n >= 10 {
        law_decimal_digits_are_canonical(n / 10, 0);
        assert(decimal_digits(n)[0] == decimal_digits(n / 10)[0]);
    }
    if 0 <= i < decimal_digits(n).len() {
        assert(is_decimal_digit(decimal_digits(n)[i]));
    }
}

/// Exactly the texts of decimal digits, at least one, are numbers, with or
/// without one plus sign in front, which changes nothing.
pub proof fn law_numbers_are_digits(s: Seq<char>)
    ensures
        (s.len() > 0 && forall|i: int| 0 <= i < s.len() ==> '0' <= #[trigger] s[i] <= '9')
            ==> unsigned_value(s) is Some,
        unsigned_value(s) is Some ==> s.len() > 0 && (forall|i: int|
            0 < i < s.len() ==> '0' <= #[trigger] s[i] <= '9') && ('0' <= s[0] <= '9' || s[0] == '+'
            && s.len() > 1),
        s.len() > 0 && s[0] != '+' ==> unsigned_value(seq!['+'] + s) == unsigned_value(s),
        unsigned_value(seq!['+']) is None,
        unsigned_value(Seq::empty()) is None,
{
    let t = without_plus(s);
    if s.len() > 0 && s[0] == '+' {
        assert forall|i: int| 0 < i < s.len() && all_digits(t) implies '0' <= #[trigger] s[i]
            <= '9' by {
            assert(is_decimal_digit(t[i - 1]));
        }
    } else {
        assert forall|i: int| 0 <= i < s.len() && all_digits(t) implies '0' <= #[trigger] s[i]
            <= '9' by {
            assert(is_decimal_digit(t[i]));
        }
    }
    assert((seq!['+'] + s).skip(1) == s);
    assert(seq!['+'].skip(1).len() == 0);
}

/// One more digit counts ten times what stands before it, and its own value.
pub proof fn law_digits_count_by_place(front: Seq<char>, digit: char)
    requires
        all_digits(front),
        '0' <= digit <= '9',
    ensures
        unsigned_value(front) is Some,
        unsigned_value(front.push(digit)) == Some(
            (unsigned_value(front)->0 * 10 + (digit as int - '0' as int)) as nat,
        ),
        unsigned_value(seq![digit]) == Some((digit as int - '0' as int) as nat),
{
    assert(is_decimal_digit(front[0]));
    let s = front.push(digit);
    assert(s.drop_last() == front);
    assert forall|i: int| 0 <= i < s.len() implies is_decimal_digit(#[trigger] s[i]) by {
        if i < front.len() {
            assert(s[i] == front[i]);
        }
    }
    assert(s[0] == front[0]);
    let one = seq![digit];
    assert(one.drop_last() == Seq::<char>::empty());
    assert(digits_value(one.drop_last()) == 0);
    assert(is_decimal_digit(one[0]));
}

} // verus!
