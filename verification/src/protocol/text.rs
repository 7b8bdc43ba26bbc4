//! Text: decimal numbers and UTF-8.

use vstd::prelude::*;
use vstd::utf8::*;

verus! {

/// The character of a decimal digit.
pub open spec fn digit(value: int) -> char {
    ('0' as int + value) as char
}

/// A natural number in decimal, without leading zeros.
pub open spec fn decimal_nat(value: nat) -> Seq<char>
    decreases value,
{
    if value < 10 {
        seq![digit(value as int)]
    } else {
        decimal_nat(value / 10).push(digit(value as int % 10))
    }
}

/// A number in decimal, with a leading `-` where it is negative.
pub open spec fn decimal(value: int) -> Seq<char> {
    if value < 0 {
        seq!['-'] + decimal_nat((-value) as nat)
    } else {
        decimal_nat(value as nat)
    }
}

/// A natural number in decimal is made of digits, at least one.
pub proof fn lemma_decimal_digits(value: nat)
    ensures
        decimal_nat(value).len() > 0,
        forall|i: int| 0 <= i < decimal_nat(value).len() ==> '0' <= #[trigger] decimal_nat(value)[i]
            <= '9',
    decreases value,
{
    if value >= 10 {
        lemma_decimal_digits(value / 10);
    }
}

/// The number that a text of digits stands for.
pub open spec fn number(text: Seq<char>) -> int
    decreases text.len(),
{
    if text.len() == 0 {
        0
    } else {
        number(text.drop_last()) * 10 + (text.last() as int - '0' as int)
    }
}

/// A number in decimal reads as that number, without leading zeros, and with a sign where it is negative.
pub proof fn law_decimal_reads_back(value: int)
    ensures
        value >= 0 ==> number(decimal(value)) == value,
        value < 0 ==> decimal(value)[0] == '-' && number(decimal(value).skip(1)) == -value,
        value > 0 ==> decimal(value)[0] != '0',
{
    lemma_decimal_nat_reads_back(if value < 0 {
        (-value) as nat
    } else {
        value as nat
    });
    if value < 0 {
        assert(decimal(value).skip(1) =~= decimal_nat((-value) as nat));
    }
}

proof fn lemma_decimal_nat_reads_back(value: nat)
    ensures
        number(decimal_nat(value)) == value,
        decimal_nat(value).len() > 0,
        value > 0 ==> decimal_nat(value)[0] != '0',
    decreases value,
{
    if value < 10 {
        assert(decimal_nat(value).drop_last() =~= seq![]);
        reveal_with_fuel(number, 2);
    } else {
        lemma_decimal_nat_reads_back(value / 10);
        assert(decimal_nat(value).drop_last() =~= decimal_nat(value / 10));
    }
}

/// Different natural numbers differ in decimal.
pub proof fn law_decimal_tells_apart(a: nat, b: nat)
    requires
        decimal_nat(a) == decimal_nat(b),
    ensures
        a == b,
    decreases a,
{
    lemma_decimal_digits(a / 10);
    lemma_decimal_digits(b / 10);
    assert(decimal_nat(a).last() == digit(a as int % 10));
    assert(decimal_nat(b).last() == digit(b as int % 10));
    assert((a >= 10) == (decimal_nat(a).len() > 1));
    assert((b >= 10) == (decimal_nat(b).len() > 1));
    if a >= 10 {
        assert(decimal_nat(a).drop_last() =~= decimal_nat(a / 10));
        assert(decimal_nat(b).drop_last() =~= decimal_nat(b / 10));
        law_decimal_tells_apart(a / 10, b / 10);
    }
}

/// `i32::to_string`: the number in decimal.
#[verifier::external_body]
pub(crate) fn i32_to_string(value: i32) -> (text: String)
    ensures
        text@ == decimal(value as int),
{
    value.to_string()
}

/// The error of `str::from_utf8`; nothing is read from it.
#[verifier::external_type_specification]
#[verifier::external_body]
pub struct ExUtf8Error(std::str::Utf8Error);

/// `str::from_utf8`: succeeds on valid UTF-8 alone, and gives the text that the bytes encode.
pub assume_specification[ std::str::from_utf8 ](bytes: &[u8]) -> (result: Result<
    &str,
    std::str::Utf8Error,
>)
    ensures
        result is Ok <==> valid_utf8(bytes@),
        result matches Ok(text) ==> text@ == decode_utf8(bytes@),
;

} // verus!
