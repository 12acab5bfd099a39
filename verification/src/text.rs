//! Text building blocks: decimal rendering of integers and appending to strings.
use vstd::prelude::*;

verus! {

/// The character of a decimal digit `d` (`0 <= d < 10`).
pub open spec fn digit_char(d: nat) -> char {
    seq!['0', '1', '2', '3', '4', '5', '6', '7', '8', '9'][d as int]
}

/// The value of a decimal digit character.
pub open spec fn digit_value(c: char) -> nat {
    if c == '1' { 1 }
    else if c == '2' { 2 }
    else if c == '3' { 3 }
    else if c == '4' { 4 }
    else if c == '5' { 5 }
    else if c == '6' { 6 }
    else if c == '7' { 7 }
    else if c == '8' { 8 }
    else if c == '9' { 9 }
    else { 0 }
}

pub open spec fn is_digit(c: char) -> bool {
    '0' <= c && c <= '9'
}

/// The usual decimal rendering of `n`: no sign, no leading zeros, "0" for zero.
pub open spec fn decimal(n: nat) -> Seq<char>
    decreases n,
{
    if n < 10 {
        seq![digit_char(n)]
    } else {
        decimal(n / 10).push(digit_char(n % 10))
    }
}

/// The number that a sequence of decimal digits denotes.
pub open spec fn digits_value(s: Seq<char>) -> nat
    decreases s.len(),
{
    if s.len() == 0 {
        0
    } else {
        digits_value(s.drop_last()) * 10 + digit_value(s.last())
    }
}

/// Six zero characters: a factor of one million written after a number.
pub open spec fn six_zeros() -> Seq<char> {
    seq!['0', '0', '0', '0', '0', '0']
}

/// Appends `c` to `s`.
///
/// Trusted: calls `String::push` of std, whose documentation says that it
/// appends the given char to the end of the string.
#[verifier::external_body]
pub fn push_char(s: &mut String, c: char)
    ensures
        final(s)@ == old(s)@.push(c),
{
    s.push(c);
}

/// The digit character of `d % 10`.
pub fn digit_char_of(d: u64) -> (c: char)
    ensures
        c == digit_char((d % 10) as nat),
{
    let r: u64 = d % 10;
    if r == 0 { '0' }
    else if r == 1 { '1' }
    else if r == 2 { '2' }
    else if r == 3 { '3' }
    else if r == 4 { '4' }
    else if r == 5 { '5' }
    else if r == 6 { '6' }
    else if r == 7 { '7' }
    else if r == 8 { '8' }
    else { '9' }
}

/// Appends the decimal rendering of `n` to `s`.
pub fn push_decimal(s: &mut String, n: u64)
    ensures
        final(s)@ == old(s)@ + decimal(n as nat),
    decreases n,
{
    if n >= 10 {
        push_decimal(s, n / 10);
    }
    let c = digit_char_of(n);
    push_char(s, c);
    assert(n < 10 ==> n % 10 == n);
}

/// The decimal rendering of `n` as a new string.
pub fn decimal_string(n: u64) -> (s: String)
    ensures
        s@ == decimal(n as nat),
{
    let mut s = String::new();
    push_decimal(&mut s, n);
    assert(Seq::<char>::empty() + decimal(n as nat) =~= decimal(n as nat));
    s
}

/// Every rendering is a nonempty run of digits that starts with '0' only when it is "0".
pub proof fn lemma_decimal_well_formed(n: nat)
    ensures
        decimal(n).len() >= 1,
        forall|i: int| 0 <= i < decimal(n).len() ==> is_digit(#[trigger] decimal(n)[i]),
        decimal(n)[0] == '0' <==> n == 0,
    decreases n,
{
    lemma_digit_round_trip(n % 10);
    if n >= 10 {
        lemma_decimal_well_formed(n / 10);
        let prev = decimal(n / 10);
        assert forall|i: int| 0 <= i < decimal(n).len() implies is_digit(#[trigger] decimal(n)[i]) by {
            if i < prev.len() {
                assert(decimal(n)[i] == prev[i]);
            }
        }
    }
}

/// A digit character reads back as its digit.
pub proof fn lemma_digit_round_trip(d: nat)
    requires
        d < 10,
    ensures
        digit_value(digit_char(d)) == d,
        is_digit(digit_char(d)),
{
    assert(d == 0 || d == 1 || d == 2 || d == 3 || d == 4 || d == 5 || d == 6 || d == 7 || d == 8
        || d == 9);
}

/// Reading back a rendering gives the number that was rendered.
pub proof fn lemma_decimal_value(n: nat)
    ensures
        digits_value(decimal(n)) == n,
    decreases n,
{
    lemma_digit_round_trip(n % 10);
    lemma_digit_round_trip(n % 10);
    let s = decimal(n);
    if n >= 10 {
        lemma_decimal_value(n / 10);
        assert(s.drop_last() =~= decimal(n / 10));
        assert(s.last() == digit_char(n % 10));
        assert(digits_value(s) == (n / 10) * 10 + n % 10);
        assert((n / 10) * 10 + n % 10 == n);
    } else {
        assert(s.drop_last() =~= Seq::<char>::empty());
        assert(s.last() == digit_char(n));
        assert(n % 10 == n);
        assert(digits_value(s.drop_last()) == 0);
        assert(digits_value(s) == digit_value(digit_char(n)));
    }
}

/// Distinct numbers have distinct renderings.
pub proof fn lemma_decimal_injective(a: nat, b: nat)
    requires
        decimal(a) == decimal(b),
    ensures
        a == b,
{
    lemma_decimal_value(a);
    lemma_decimal_value(b);
}

/// Writing a '0' after the rendering of a positive number multiplies it by ten.
pub proof fn lemma_decimal_times_ten(n: nat)
    requires
        n > 0,
    ensures
        decimal(n * 10) == decimal(n).push('0'),
{
    assert((n * 10) / 10 == n);
    assert((n * 10) % 10 == 0);
}

/// Writing six zeros after the rendering of a positive number multiplies it by one million.
pub proof fn lemma_decimal_times_million(n: nat)
    requires
        n > 0,
    ensures
        decimal(n) + six_zeros() == decimal(n * 1000000),
{
    lemma_decimal_times_ten(n);
    lemma_decimal_times_ten(n * 10);
    lemma_decimal_times_ten(n * 100);
    lemma_decimal_times_ten(n * 1000);
    lemma_decimal_times_ten(n * 10000);
    lemma_decimal_times_ten(n * 100000);
    assert(n * 10 * 10 == n * 100);
    assert(n * 100 * 10 == n * 1000);
    assert(n * 1000 * 10 == n * 10000);
    assert(n * 10000 * 10 == n * 100000);
    assert(n * 100000 * 10 == n * 1000000);
    assert(decimal(n) + six_zeros() =~= decimal(n).push('0').push('0').push('0').push('0').push(
        '0',
    ).push('0'));
}

} // verus!
