//! Numbers written out in decimal.
use vstd::prelude::*;
use vstd::string::StringExecFns;

verus! {

/// The decimal digit that stands for `d`.
pub open spec fn digit(d: nat) -> char {
    ('0' as int + d) as char
}

/// `n` in decimal, without leading zeros.
pub open spec fn decimal(n: nat) -> Seq<char>
    decreases n,
{
    if n < 10 {
        seq![digit(n)]
    } else {
        decimal(n / 10).push(digit(n % 10))
    }
}

/// Whether `c` is a decimal digit.
pub open spec fn is_digit(c: char) -> bool {
    '0' <= c <= '9'
}

/// The decimal digit that stands for `d`, as text.
fn digit_text(d: usize) -> (text: &'static str)
    requires
        d < 10,
    ensures
        text@ == seq![digit(d as nat)],
{
    proof {
        reveal_strlit("0");
        reveal_strlit("1");
        reveal_strlit("2");
        reveal_strlit("3");
        reveal_strlit("4");
        reveal_strlit("5");
        reveal_strlit("6");
        reveal_strlit("7");
        reveal_strlit("8");
        reveal_strlit("9");
    }
    let text = match d {
        0 => "0",
        1 => "1",
        2 => "2",
        3 => "3",
        4 => "4",
        5 => "5",
        6 => "6",
        7 => "7",
        8 => "8",
        _ => "9",
    };
    assert(text@ =~= seq![digit(d as nat)]);
    text
}

/// `n` in decimal, without leading zeros.
pub fn to_decimal(n: usize) -> (text: String)
    ensures
        text@ == decimal(n as nat),
    decreases n,
{
    if n < 10 {
        String::from_str(digit_text(n))
    } else {
        let mut text = to_decimal(n / 10);
        text.append(digit_text(n % 10));
        assert(text@ =~= decimal(n as nat));
        text
    }
}

/// A number in decimal is a run of digits, at least one.
pub proof fn law_decimal_is_digits(n: nat)
    ensures
        decimal(n).len() > 0,
        forall|i: int| 0 <= i < decimal(n).len() ==> is_digit(#[trigger] decimal(n)[i]),
    decreases n,
{
    if n >= 10 {
        law_decimal_is_digits(n / 10);
    }
}

/// The number that a run of digits stands for, each place worth ten times the one behind it.
pub open spec fn value(text: Seq<char>) -> int
    decreases text.len(),
{
    if text.len() == 0 {
        0
    } else {
        10 * value(text.drop_last()) + (text.last() as int - '0' as int)
    }
}

/// What is written stands for the number that was to be written, and has no leading zero.
pub proof fn law_decimal_stands_for_its_number(n: nat)
    ensures
        value(decimal(n)) == n,
        decimal(n)[0] == '0' ==> decimal(n).len() == 1,
        n == 0 <==> decimal(n)[0] == '0',
    decreases n,
{
    law_decimal_is_digits(n / 10);
    if n < 10 {
        assert(decimal(n).drop_last() =~= Seq::empty());
        assert(value(Seq::<char>::empty()) == 0);
    } else {
        law_decimal_stands_for_its_number(n / 10);
        assert(decimal(n).drop_last() =~= decimal(n / 10));
    }
}

/// There is no other run of digits without a leading zero that stands for the number.
pub proof fn law_decimal_is_the_only_way(n: nat, text: Seq<char>)
    requires
        text.len() > 0,
        forall|i: int| 0 <= i < text.len() ==> '0' <= #[trigger] text[i] <= '9',
        text[0] == '0' ==> text.len() == 1,
        value(text) == n,
    ensures
        text == decimal(n),
    decreases text.len(),
{
    let front = text.drop_last();
    assert('0' <= text[text.len() - 1] <= '9');
    if text.len() == 1 {
        assert(value(front) == 0);
        assert(text =~= decimal(n));
    } else {
        lemma_value_is_positive(front);
        assert(n / 10 == value(front));
        assert(n % 10 == text.last() as int - '0' as int);
        law_decimal_is_the_only_way(n / 10, front);
        assert(text =~= decimal(n));
    }
}

/// Digits without a leading zero stand for a number that is not zero.
proof fn lemma_value_is_positive(text: Seq<char>)
    requires
        text.len() > 0,
        forall|i: int| 0 <= i < text.len() ==> '0' <= #[trigger] text[i] <= '9',
        text[0] != '0',
    ensures
        value(text) > 0,
    decreases text.len(),
{
    assert('0' <= text[text.len() - 1] <= '9');
    if text.len() == 1 {
        assert(value(text.drop_last()) == 0);
    } else {
        lemma_value_is_positive(text.drop_last());
    }
}

/// No two numbers are written alike.
pub proof fn law_decimal_tells_numbers_apart(a: nat, b: nat)
    requires
        decimal(a) == decimal(b),
    ensures
        a == b,
    decreases a,
{
    law_decimal_is_digits(a / 10);
    law_decimal_is_digits(b / 10);
    assert(decimal(a).last() == digit(a % 10));
    assert(decimal(b).last() == digit(b % 10));
    if a >= 10 && b >= 10 {
        assert(decimal(a).drop_last() =~= decimal(a / 10));
        assert(decimal(b).drop_last() =~= decimal(b / 10));
        law_decimal_tells_numbers_apart(a / 10, b / 10);
    }
}

/// A `usize` in decimal is at most twenty digits long.
pub(crate) proof fn lemma_decimal_is_short(n: usize)
    ensures
        decimal(n as nat).len() <= 20,
{
    reveal_with_fuel(decimal, 21);
}

} // verus!
