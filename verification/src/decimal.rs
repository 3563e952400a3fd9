//! Whole numbers written out in decimal.

use vstd::prelude::*;
use vstd::string::*;

verus! {

/// The digit for `n` below ten.
pub open spec fn digit(n: int) -> char {
    (n + 0x30) as char
}

/// `n` in decimal, without leading zeros.
pub open spec fn digits(n: nat) -> Seq<char>
    decreases n,
{
    if n < 10 {
        seq![digit(n as int)]
    } else {
        digits(n / 10).push(digit((n % 10) as int))
    }
}

/// `n` in decimal, with a sign where it is negative.
pub open spec fn decimal(n: int) -> Seq<char> {
    if n < 0 {
        seq!['-'] + digits((-n) as nat)
    } else {
        digits(n as nat)
    }
}

fn digit_text(n: u64) -> (text: &'static str)
    requires
        n < 10,
    ensures
        text@ == seq![digit(n as int)],
{
    proof {
        reveal_strlit("0");
        reveal_strlit("1");
        reveal_strlit("2");
        reveal_strlit("3");
        reveal_strlit("4");
        reveal_strlit("5");
        reveal_strlit("6");
        reveal_strlit("7");
        reveal_strlit("8");
        reveal_strlit("9");
    }
    let text: &'static str = match n {
        0 => "0",
        1 => "1",
        2 => "2",
        3 => "3",
        4 => "4",
        5 => "5",
        6 => "6",
        7 => "7",
        8 => "8",
        _ => "9",
    };
    assert(text@ =~= seq![digit(n as int)]);
    text
}

fn append_digits(text: &mut String, n: u64)
    ensures
        final(text)@ == old(text)@ + digits(n as nat),
    decreases n,
{
    if n >= 10 {
        append_digits(text, n / 10);
    }
    text.append(digit_text(n % 10));
    assert(text@ =~= old(text)@ + digits(n as nat));
}

/// Writes `n` out in decimal.
pub fn decimal_text(n: i64) -> (text: String)
    ensures
        text@ == decimal(n as int),
{
    let mut text = String::new();
    if n < 0 {
        text.append("-");
        proof {
            reveal_strlit("-");
        }
        append_digits(&mut text, (-(n + 1)) as u64 + 1);
    } else {
        append_digits(&mut text, n as u64);
    }
    assert(text@ =~= decimal(n as int));
    text
}

/// Digits are all that a natural number is written with.
proof fn lemma_digits_only(n: nat)
    ensures
        digits(n).len() >= 1,
        forall|i: int| 0 <= i < digits(n).len() ==> '0' <= #[trigger] digits(n)[i] <= '9',
    decreases n,
{
    if n >= 10 {
        lemma_digits_only(n / 10);
    }
}

proof fn lemma_digits_injective(a: nat, b: nat)
    requires
        digits(a) == digits(b),
    ensures
        a == b,
    decreases a,
{
    lemma_digits_only(a / 10);
    lemma_digits_only(b / 10);
    assert(digits(a).last() == digit((a % 10) as int));
    assert(digits(b).last() == digit((b % 10) as int));
    if a >= 10 {
        assert(digits(a).drop_last() =~= digits(a / 10));
        assert(digits(b).drop_last() =~= digits(b / 10));
        lemma_digits_injective(a / 10, b / 10);
    }
}

/// Different numbers are written differently.
pub proof fn law_decimal_is_unambiguous(a: int, b: int)
    requires
        decimal(a) == decimal(b),
    ensures
        a == b,
{
    lemma_digits_only(if a < 0 { (-a) as nat } else { a as nat });
    lemma_digits_only(if b < 0 { (-b) as nat } else { b as nat });
    let first = decimal(a)[0];
    if a < 0 {
        assert(first == '-');
        assert(b < 0);
        assert(decimal(a).skip(1) =~= digits((-a) as nat));
        assert(decimal(b).skip(1) =~= digits((-b) as nat));
        lemma_digits_injective((-a) as nat, (-b) as nat);
    } else {
        assert(b >= 0);
        lemma_digits_injective(a as nat, b as nat);
    }
}

/// Ten to the power of `k`.
spec fn ten_to(k: nat) -> nat
    decreases k,
{
    if k == 0 {
        1
    } else {
        10 * ten_to((k - 1) as nat)
    }
}

proof fn lemma_digits_len(n: nat, k: nat)
    requires
        n < ten_to(k),
        k >= 1,
    ensures
        digits(n).len() <= k,
    decreases k,
{
    reveal_with_fuel(ten_to, 2);
    if n >= 10 {
        lemma_digits_len(n / 10, (k - 1) as nat);
    }
}

/// A number of 64 bits takes at most twenty characters, all of
/// them ASCII.
pub proof fn lemma_decimal_is_short(n: int)
    requires
        i64::MIN <= n <= i64::MAX,
    ensures
        1 <= decimal(n).len() <= 20,
        vstd::utf8::is_ascii_chars(decimal(n)),
{
    let magnitude = if n < 0 {
        (-n) as nat
    } else {
        n as nat
    };
    lemma_digits_only(magnitude);
    assert(ten_to(19) == 10_000_000_000_000_000_000) by {
        reveal_with_fuel(ten_to, 20);
    }
    lemma_digits_len(magnitude, 19);
}

/// A number is written without line breaks.
pub proof fn lemma_decimal_is_one_line(n: int)
    ensures
        forall|i: int| 0 <= i < decimal(n).len() ==> #[trigger] decimal(n)[i] != '\n',
{
    lemma_digits_only(
        if n < 0 {
            (-n) as nat
        } else {
            n as nat
        },
    );
}

/// Writing another digit behind a number makes it ten times as large and adds the
/// digit; below ten a number is its digit; and a negative number is a sign and
/// the number without it.
pub proof fn law_decimal_is_positional(n: int, last: int)
    requires
        0 <= last < 10,
    ensures
        decimal(last) == seq![(0x30 + last) as char],
        n > 0 ==> decimal(10 * n + last) == decimal(n).push((0x30 + last) as char),
        n > 0 ==> decimal(-n) == seq!['-'] + decimal(n),
{
    if n > 0 {
        assert((10 * n + last) / 10 == n && (10 * n + last) % 10 == last);
    }
}

} // verus!
