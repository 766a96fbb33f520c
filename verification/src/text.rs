//! Rendering of numbers and bytes as text.

use vstd::prelude::*;
use vstd::string::StringExecFns;

verus! {

/// `String::push`: appends one character to the end of the string.
pub assume_specification[ String::push ](s: &mut String, c: char)
    ensures
        final(s)@ == old(s)@.push(c),
;

/// The character of a decimal digit.
pub open spec fn decimal_digit(d: nat) -> char {
    (48 + d) as char
}

/// The decimal digits of `n`, most significant first, without leading zeros.
pub open spec fn decimal(n: nat) -> Seq<char>
    decreases n,
{
    if n < 10 {
        seq![decimal_digit(n)]
    } else {
        decimal(n / 10).push(decimal_digit(n % 10))
    }
}

/// The lower-case character of a hexadecimal digit.
pub open spec fn hex_digit(d: int) -> char {
    if d < 10 {
        (48 + d) as char
    } else {
        (87 + d) as char
    }
}

/// Two lower-case hexadecimal digits for each byte, high half first.
pub open spec fn hex(bytes: Seq<u8>) -> Seq<char> {
    Seq::new(
        2 * bytes.len(),
        |i: int|
            hex_digit(
                if i % 2 == 0 {
                    bytes[i / 2] as int / 16
                } else {
                    bytes[i / 2] as int % 16
                },
            ),
    )
}

/// A digit is one character, and putting a digit behind a number multiplies it by ten and adds the
/// digit. Leading zeros are not written.
pub proof fn law_decimal_goes_digit_by_digit(n: nat, d: nat)
    requires
        d < 10,
    ensures
        decimal(d).len() == 1,
        decimal(d)[0] as int == '0' as int + d,
        n > 0 ==> decimal(10 * n + d) == decimal(n) + decimal(d),
{
    if n > 0 {
        assert((10 * n + d) / 10 == n);
        assert((10 * n + d) % 10 == d);
        assert(decimal(10 * n + d) =~= decimal(n) + decimal(d));
    }
}

/// Each byte has two characters, one for its high and one for its low half: `0` to `9` for a half
/// below ten, `a` to `f` for any other.
pub proof fn law_hex_digits_stand_in_place(bytes: Seq<u8>, i: int)
    requires
        0 <= i < bytes.len(),
    ensures
        hex(bytes).len() == 2 * bytes.len(),
        bytes[i] < 0xA0 ==> hex(bytes)[2 * i] as int == '0' as int + bytes[i] / 16,
        bytes[i] >= 0xA0 ==> hex(bytes)[2 * i] as int == 'a' as int + (bytes[i] / 16 - 10),
        bytes[i] % 16 < 10 ==> hex(bytes)[2 * i + 1] as int == '0' as int + bytes[i] % 16,
        bytes[i] % 16 >= 10 ==> hex(bytes)[2 * i + 1] as int == 'a' as int + (bytes[i] % 16 - 10),
{
    assert((2 * i) / 2 == i && (2 * i + 1) / 2 == i && (2 * i) % 2 == 0 && (2 * i + 1) % 2 == 1);
}

/// A message holds its texts and the digits of its numbers in the order given, and nothing else.
pub proof fn law_messages_are_put_together_in_order(
    before: Seq<char>,
    first: nat,
    middle: Seq<char>,
    second: nat,
    after: Seq<char>,
    third: nat,
)
    ensures
        two_numbers(before, first, middle, second, after) == before + (decimal(first) + (middle + (
        decimal(second) + after))),
        three_numbers(before, first, middle, second, after, third) == before + (decimal(first) + (
        middle + (decimal(second) + (after + decimal(third))))),
{
    assert(two_numbers(before, first, middle, second, after) =~= before + (decimal(first) + (middle
        + (decimal(second) + after))));
    assert(three_numbers(before, first, middle, second, after, third) =~= before + (decimal(first)
        + (middle + (decimal(second) + (after + decimal(third))))));
}

/// Appends the decimal digits of `n` to `out`.
pub fn push_decimal(out: &mut String, n: usize)
    ensures
        final(out)@ == old(out)@ + decimal(n as nat),
    decreases n,
{
    let digit: u8 = (n % 10) as u8;
    if n >= 10 {
        push_decimal(out, n / 10);
    }
    out.push((48 + digit) as char);
    proof {
        assert(old(out)@ + decimal(n as nat) =~= out@);
    }
}

/// The text `before`, `first`, `middle`, `second`, `after`, in that order.
pub open spec fn two_numbers(
    before: Seq<char>,
    first: nat,
    middle: Seq<char>,
    second: nat,
    after: Seq<char>,
) -> Seq<char> {
    before + decimal(first) + middle + decimal(second) + after
}

/// Renders a message around two numbers.
pub fn format_two_numbers(
    before: &str,
    first: usize,
    middle: &str,
    second: usize,
    after: &str,
) -> (text: String)
    ensures
        text@ == two_numbers(before@, first as nat, middle@, second as nat, after@),
{
    let mut text: String = String::new();
    text.append(before);
    push_decimal(&mut text, first);
    text.append(middle);
    push_decimal(&mut text, second);
    text.append(after);
    proof {
        assert(Seq::<char>::empty() + before@ =~= before@);
    }
    text
}

/// The texts and numbers given, in order.
pub open spec fn three_numbers(
    before: Seq<char>,
    first: nat,
    middle: Seq<char>,
    second: nat,
    after: Seq<char>,
    third: nat,
) -> Seq<char> {
    two_numbers(before, first, middle, second, after) + decimal(third)
}

/// Renders a message around three numbers, the last at its end.
pub fn format_three_numbers(
    before: &str,
    first: usize,
    middle: &str,
    second: usize,
    after: &str,
    third: usize,
) -> (text: String)
    ensures
        text@ == three_numbers(
            before@,
            first as nat,
            middle@,
            second as nat,
            after@,
            third as nat,
        ),
{
    let mut text: String = format_two_numbers(before, first, middle, second, after);
    push_decimal(&mut text, third);
    text
}

/// The lower-case hexadecimal digit of a number below sixteen.
fn hex_char(d: u8) -> (c: char)
    requires
        d < 16,
    ensures
        c == hex_digit(d as int),
{
    if d < 10 {
        (48 + d) as char
    } else {
        (87 + d) as char
    }
}

/// Renders bytes as lower-case hexadecimal, two digits for each byte.
pub fn hex_string(bytes: &[u8]) -> (text: String)
    ensures
        text@ == hex(bytes@),
{
    let mut text: String = String::new();
    let mut i: usize = 0;
    while i < bytes.len()
        invariant
            i <= bytes@.len(),
            text@ =~= hex(bytes@.take(i as int)),
        decreases bytes@.len() - i,
    {
        let b: u8 = bytes[i];
        text.push(hex_char(b / 16));
        text.push(hex_char(b % 16));
        proof {
            let whole = hex(bytes@.take(i + 1));
            assert forall|k: int| 0 <= k < whole.len() implies whole[k] == text@[k] by {
                if k < 2 * i {
                    assert(bytes@.take(i + 1)[k / 2] == bytes@.take(i as int)[k / 2]);
                }
            }
        }
        i += 1;
    }
    proof {
        assert(bytes@.take(i as int) =~= bytes@);
    }
    text
}

/// Different hexadecimal digits have different characters.
proof fn lemma_hex_digit_is_injective(x: int, y: int)
    requires
        0 <= x < 16,
        0 <= y < 16,
        hex_digit(x) == hex_digit(y),
    ensures
        x == y,
{
    assert(hex_digit(x) as int == if x < 10 { 48 + x } else { 87 + x });
    assert(hex_digit(y) as int == if y < 10 { 48 + y } else { 87 + y });
}

/// Different bytes never render to the same hexadecimal text.
pub proof fn law_hex_is_injective(a: Seq<u8>, b: Seq<u8>)
    requires
        hex(a) == hex(b),
    ensures
        a == b,
{
    assert(hex(a).len() == 2 * a.len());
    assert(hex(b).len() == 2 * b.len());
    assert forall|i: int| 0 <= i < a.len() implies a[i] == b[i] by {
        assert(hex(a)[2 * i] == hex_digit(a[i] as int / 16));
        assert(hex(b)[2 * i] == hex_digit(b[i] as int / 16));
        assert(hex(a)[2 * i + 1] == hex_digit(a[i] as int % 16));
        assert(hex(b)[2 * i + 1] == hex_digit(b[i] as int % 16));
        lemma_hex_digit_is_injective(a[i] as int / 16, b[i] as int / 16);
        lemma_hex_digit_is_injective(a[i] as int % 16, b[i] as int % 16);
    }
    assert(a =~= b);
}

} // verus!
